use herdr_modes::client::{member_of, reply_for, request, request_id, Error, Json};

fn st(v: &str) -> Json {
    Json::Str(v.to_string())
}

fn obj(members: Vec<(&str, Json)>) -> Json {
    Json::Obj(members.into_iter().map(|(k, v)| (k.to_string(), v)).collect())
}

#[test]
fn requests_are_numbered_and_carry_their_params() {
    assert_eq!(request_id(1), "modes-1");
    assert_eq!(request_id(42), "modes-42");
    let r = request("modes-7", "tab.list", obj(vec![("workspace_id", st("w1"))]));
    assert_eq!(
        format!("{r:?}"),
        format!(
            "{:?}",
            obj(vec![
                ("id", st("modes-7")),
                ("method", st("tab.list")),
                ("params", obj(vec![("workspace_id", st("w1"))])),
            ])
        )
    );
}

#[test]
fn a_reply_for_another_request_is_skipped() {
    let line = obj(vec![("id", st("modes-2")), ("result", obj(vec![]))]);
    assert!(reply_for(line, "modes-1").is_none());
    assert!(reply_for(obj(vec![("result", Json::Null)]), "modes-1").is_none());
}

#[test]
fn a_reply_hands_back_its_result() {
    let line = obj(vec![("id", st("modes-1")), ("result", obj(vec![("tabs", Json::Arr(vec![]))]))]);
    let v = reply_for(line, "modes-1").unwrap().unwrap();
    assert_eq!(format!("{v:?}"), format!("{:?}", obj(vec![("tabs", Json::Arr(vec![]))])));
    let bare = reply_for(obj(vec![("id", st("modes-1"))]), "modes-1").unwrap().unwrap();
    assert!(matches!(bare, Json::Null));
}

#[test]
fn an_error_reply_names_its_code_and_message() {
    let line = obj(vec![
        ("id", st("modes-3")),
        ("error", obj(vec![("code", st("not_found")), ("message", st("no such tab"))])),
    ]);
    let e = reply_for(line, "modes-3").unwrap().unwrap_err();
    assert_eq!(e.message(), "not_found: no such tab");
    let bare = obj(vec![("id", st("modes-3")), ("error", obj(vec![]))]);
    assert_eq!(reply_for(bare, "modes-3").unwrap().unwrap_err().message(), "error: request failed");
}

#[test]
fn errors_read_as_one_line() {
    assert_eq!(Error::Io("broken pipe".into()).message(), "io: broken pipe");
    assert_eq!(Error::Protocol("socket closed before a reply".into()).message(), "protocol: socket closed before a reply");
}

#[test]
fn a_popup_already_open_is_recognised_by_code_or_message() {
    let busy = Error::Api { code: "ui_busy".into(), message: "busy".into() };
    let older = Error::Api { code: "conflict".into(), message: "a popup is already open".into() };
    let other = Error::Api { code: "not_found".into(), message: "no such pane".into() };
    assert!(busy.is_popup_already_open());
    assert!(older.is_popup_already_open());
    assert!(!other.is_popup_already_open());
    assert!(!Error::Protocol("already open".into()).is_popup_already_open());
}

#[test]
fn json_accessors_read_members_by_key() {
    let v = obj(vec![("a", st("x")), ("b", Json::Bool(true)), ("c", Json::Arr(vec![Json::Null]))]);
    assert_eq!(v.text_at("a").as_deref(), Some("x"));
    assert_eq!(v.text_at("b"), None);
    assert_eq!(v.bool_at("b"), Some(true));
    assert_eq!(v.array_at("c").map(|a| a.len()), Some(1));
    assert!(v.get("d").is_none());
    let (k, _) = member_of("key", Json::Null);
    assert_eq!(k, "key");
    assert!(matches!(Json::count(12), Json::Num(n) if n == "12"));
}
