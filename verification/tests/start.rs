use herdr_modes::client::{Error, Json};
use herdr_modes::start::{asks_note, context_id, open_params, open_step, unknown_mode, OpenStep};

fn busy() -> Result<Json, Error> {
    Err(Error::Api { code: "ui_busy".into(), message: "popup busy".into() })
}

#[test]
fn open_asks_for_a_focused_popup_of_the_entrypoint() {
    let p = open_params("herdr-modes", "tab", None);
    assert_eq!(
        format!("{p:?}"),
        format!(
            "{:?}",
            Json::Obj(vec![
                ("plugin_id".into(), Json::Str("herdr-modes".into())),
                ("entrypoint".into(), Json::Str("tab".into())),
                ("placement".into(), Json::Str("popup".into())),
                ("focus".into(), Json::Bool(true)),
                ("width".into(), Json::Str("90%".into())),
                ("height".into(), Json::Num("4".into())),
            ])
        )
    );
}

#[test]
fn open_hands_the_note_on_in_the_environment() {
    let p = open_params("herdr-modes", "tab", Some("{\"mode\":\"tab\"}"));
    let Json::Obj(members) = p else { panic!("params are an object") };
    assert_eq!(members.len(), 7);
    assert_eq!(members[6].0, "env");
    assert_eq!(
        format!("{:?}", members[6].1),
        format!(
            "{:?}",
            Json::Obj(vec![("HERDR_MODES_RESUME".into(), Json::Str("{\"mode\":\"tab\"}".into()))])
        )
    );
}

#[test]
fn an_opened_popup_ends_the_wait() {
    assert_eq!(open_step(&Ok(Json::Null), true, true, false), OpenStep::Opened);
    assert_eq!(open_step(&Ok(Json::Null), false, false, true), OpenStep::Opened);
}

#[test]
fn a_popup_already_up_on_a_plain_keypress_is_nothing_to_do() {
    assert_eq!(open_step(&busy(), false, true, false), OpenStep::Stand);
    let old = Err(Error::Api { code: "conflict".into(), message: "a popup is already open".into() });
    assert_eq!(open_step(&old, false, true, false), OpenStep::Stand);
}

#[test]
fn a_hop_waits_for_the_old_popup_until_called_off_or_out_of_time() {
    assert_eq!(open_step(&busy(), true, true, false), OpenStep::Wait);
    assert_eq!(open_step(&busy(), true, false, false), OpenStep::Stand);
    assert_eq!(open_step(&busy(), true, true, true), OpenStep::GiveUp);
}

#[test]
fn any_other_error_gives_up() {
    let other = Err(Error::Protocol("socket closed before a reply".into()));
    assert_eq!(open_step(&other, true, true, false), OpenStep::GiveUp);
    assert_eq!(open_step(&other, false, false, false), OpenStep::GiveUp);
}

#[test]
fn the_context_names_where_the_session_starts() {
    let ctx = Json::Obj(vec![("workspace_id".into(), Json::Str("w1".into())), ("tab_id".into(), Json::Null)]);
    assert_eq!(context_id(&ctx, "workspace_id"), "w1");
    assert_eq!(context_id(&ctx, "tab_id"), "");
    assert_eq!(context_id(&Json::Null, "focused_pane_id"), "");
}

#[test]
fn an_unknown_mode_is_named_in_the_error() {
    assert_eq!(unknown_mode("pain").message(), "protocol: no mode named `pain`");
}

#[test]
fn the_note_is_asked_about_only_on_a_hop_into_a_busy_popup() {
    assert!(asks_note(&busy(), true));
    assert!(!asks_note(&busy(), false));
    assert!(!asks_note(&Ok(Json::Null), true));
    let other = Err(Error::Api { code: "not_found".into(), message: "no such plugin".into() });
    assert!(!asks_note(&other, true));
}
