use zephyr_cli::{
    status_text, CodeUploadClient, Column, DeployError, MercuryClient, NewZephyrTableClient,
    Outcome, Table,
};

fn client() -> MercuryClient {
    MercuryClient::new("http://localhost:8443".to_string(), "tok123".to_string())
}

fn users_table() -> Table {
    Table::new(
        "users".to_string(),
        vec![
            Column::new("id".to_string(), "u64".to_string()),
            Column::new("email".to_string(), "string".to_string()),
        ],
    )
}

#[test]
fn table_request_for_users() {
    let request = client().new_table_request(users_table()).ok().unwrap();
    assert_eq!(
        request.body,
        r#"{"table":"users","columns":[{"name":"id","col_type":"u64"},{"name":"email","col_type":"string"}]}"#
    );
    assert_eq!(request.url, "http://localhost:8443/zephyr_table_new");
    assert_eq!(request.authorization, "Bearer tok123");
    assert_eq!(request.content_type, "application/json");
}

#[test]
fn table_payload_keeps_columns_in_order() {
    let payload = NewZephyrTableClient::from_table(users_table());
    assert_eq!(payload.table, "users");
    assert_eq!(payload.columns.len(), 2);
    assert_eq!(payload.columns[0].name, "id");
    assert_eq!(payload.columns[0].col_type, "u64");
    assert_eq!(payload.columns[1].name, "email");
    assert_eq!(payload.columns[1].col_type, "string");
}

#[test]
fn table_without_columns() {
    let request = client()
        .new_table_request(Table::new("empty".to_string(), Vec::new()))
        .ok()
        .unwrap();
    assert_eq!(request.body, r#"{"table":"empty","columns":[]}"#);
}

#[test]
fn table_with_one_column() {
    let table = Table::new(
        "t".to_string(),
        vec![Column::new("k".to_string(), "bytes".to_string())],
    );
    let body = NewZephyrTableClient::from_table(table).to_json().ok().unwrap();
    assert_eq!(body, r#"{"table":"t","columns":[{"name":"k","col_type":"bytes"}]}"#);
}

#[test]
fn names_are_escaped() {
    let table = Table::new(
        "a\"b\\c".to_string(),
        vec![Column::new("x\ny\t".to_string(), "\u{1}\u{1f}é".to_string())],
    );
    let body = NewZephyrTableClient::from_table(table).to_json().ok().unwrap();
    assert_eq!(
        body,
        r#"{"table":"a\"b\\c","columns":[{"name":"x\ny\t","col_type":"\u0001\u001fé"}]}"#
    );
}

#[test]
fn upload_of_five_bytes() {
    let request = client()
        .upload_request(vec![0, 7, 42, 255, 100], false)
        .ok()
        .unwrap();
    assert_eq!(request.body, r#"{"code":[0,7,42,255,100],"force_replace":false}"#);
    assert_eq!(request.url, "http://localhost:8443/zephyr_upload");
    assert_eq!(request.authorization, "Bearer tok123");
    assert_eq!(request.content_type, "application/json");
}

#[test]
fn force_flag_literals() {
    let yes = CodeUploadClient::new(vec![1], true).to_json().ok().unwrap();
    let no = CodeUploadClient::new(vec![1], false).to_json().ok().unwrap();
    assert_eq!(yes, r#"{"code":[1],"force_replace":true}"#);
    assert_eq!(no, r#"{"code":[1],"force_replace":false}"#);
}

#[test]
fn empty_bundle() {
    let body = CodeUploadClient::new(Vec::new(), true).to_json().ok().unwrap();
    assert_eq!(body, r#"{"code":[],"force_replace":true}"#);
}

#[test]
fn every_byte_comes_back() {
    let bytes: Vec<u8> = (0..=255u8).collect();
    let request = client().upload_request(bytes.clone(), true).ok().unwrap();
    let parsed: serde_json::Value = serde_json::from_str(&request.body).unwrap();
    let code: Vec<u8> = parsed
        .get("code")
        .unwrap()
        .as_array()
        .unwrap()
        .iter()
        .map(|v| v.as_u64().unwrap() as u8)
        .collect();
    assert_eq!(code, bytes);
    assert_eq!(parsed.get("force_replace").unwrap().as_bool(), Some(true));
}

#[test]
fn read_bundle_is_sent() {
    let request = client()
        .deploy_request(Ok(vec![9, 8, 7]), true)
        .ok()
        .unwrap();
    assert_eq!(request.body, r#"{"code":[9,8,7],"force_replace":true}"#);
    assert_eq!(request.url, "http://localhost:8443/zephyr_upload");
}

#[test]
fn missing_file_builds_no_request() {
    let result = client().deploy_request(Err("No such file or directory".to_string()), false);
    match result {
        Err(DeployError::FileAccess(reason)) => assert_eq!(reason, "No such file or directory"),
        _ => panic!("expected a file access error"),
    }
}

#[test]
fn success_reports_body() {
    let outcome = Outcome::from_response(200, "users".to_string());
    assert!(matches!(&outcome, Outcome::Accepted { body } if body == "users"));
    assert_eq!(outcome.table_report(), "[+] Table \"users\" created successfully");
    assert_eq!(outcome.deploy_report(), "[+] Deployed was successful!");
    assert!(outcome.as_result().is_ok());
}

#[test]
fn success_range_edges() {
    assert!(matches!(Outcome::from_response(299, String::new()), Outcome::Accepted { .. }));
    assert!(matches!(Outcome::from_response(199, String::new()), Outcome::Rejected { status: 199 }));
    assert!(matches!(Outcome::from_response(300, String::new()), Outcome::Rejected { status: 300 }));
}

#[test]
fn rejection_reports_status() {
    let unauthorized = Outcome::from_response(401, "denied".to_string());
    assert_eq!(unauthorized.table_report(), "[-] Request failed with status code: 401");
    assert_eq!(unauthorized.deploy_report(), "[-] Request failed with status code: 401");
    assert!(matches!(unauthorized.as_result(), Err(DeployError::BackendRejected(401))));
    let failed = Outcome::from_response(500, String::new());
    assert_eq!(failed.deploy_report(), "[-] Request failed with status code: 500");
}

#[test]
fn status_digits() {
    assert_eq!(status_text(0), "0");
    assert_eq!(status_text(7), "7");
    assert_eq!(status_text(404), "404");
    assert_eq!(status_text(65535), "65535");
}
