use enoki_core::{
    check_if_main_thread, end_datalog_entry, get_connect_client_names, start_datalog_entry, EnokiError,
    NetworkTableClientId,
};

#[test]
fn client_id_string() {
    let id = NetworkTableClientId::new([127, 0, 0, 1], 5810, "enoki".to_string());
    assert_eq!(id.repr(), "127.0.0.1:5810:enoki");
    let id = NetworkTableClientId::new([10, 99, 255, 0], 0, String::new());
    assert_eq!(id.repr(), "10.99.255.0:0:");
}

#[test]
fn client_names_in_order() {
    let ids = vec![
        NetworkTableClientId::new([192, 168, 1, 2], 65535, "a".to_string()),
        NetworkTableClientId::new([1, 2, 3, 4], 80, "b".to_string()),
    ];
    assert_eq!(
        get_connect_client_names(&ids),
        vec!["192.168.1.2:65535:a".to_string(), "1.2.3.4:80:b".to_string()]
    );
}

#[test]
fn client_ids_compare_all_parts() {
    let a = NetworkTableClientId::new([1, 2, 3, 4], 80, "x".to_string());
    assert_eq!(a, a.duplicate());
    assert_ne!(a, NetworkTableClientId::new([1, 2, 3, 5], 80, "x".to_string()));
    assert_ne!(a, NetworkTableClientId::new([1, 2, 3, 4], 81, "x".to_string()));
    assert_ne!(a, NetworkTableClientId::new([1, 2, 3, 4], 80, "y".to_string()));
    assert_eq!(a.ip(), [1, 2, 3, 4]);
    assert_eq!(a.port(), 80);
    assert_eq!(a.identity(), "x");
}

#[test]
fn only_the_main_thread_passes() {
    assert!(check_if_main_thread("main").is_ok());
    match check_if_main_thread("tokio-runtime-worker") {
        Err(EnokiError::NotMainThread(name)) => assert_eq!(name, "tokio-runtime-worker"),
        other => panic!("unexpected {:?}", other),
    }
}

#[test]
fn datalog_requests() {
    let start = start_datalog_entry("main", "/ClientsConnected", "string[]", Some("Clients running from the app")).unwrap();
    assert_eq!(start.name, "/ClientsConnected");
    assert_eq!(start.entry_type, "string[]");
    assert_eq!(start.metadata.as_deref(), Some("Clients running from the app"));
    let bare = start_datalog_entry("main", "/n", "int64", None).unwrap();
    assert_eq!(bare.metadata, None);
    assert!(matches!(start_datalog_entry("worker", "/n", "int64", None), Err(EnokiError::NotMainThread(_))));
    assert_eq!(end_datalog_entry("main", "/n").unwrap().name, "/n");
    assert!(matches!(end_datalog_entry("", "/n"), Err(EnokiError::NotMainThread(_))));
}
