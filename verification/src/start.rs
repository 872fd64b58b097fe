//! Starting a mode. Plugin actions run detached without a TTY, so `open`
//! asks herdr for a popup and `run`, inside it, owns the key loop. This is
//! what `open` sends and makes of each answer, and where `run` starts from;
//! dialling the socket, reading the environment and waiting between tries
//! are the binary's business.
use crate::client::{member_of, Error, Json};
use crate::resume::ENV;
use crate::script::{fields_are, is_bool, is_count, is_obj, is_text, or_keep, Field};
use crate::text::joined;
use vstd::prelude::*;

verus! {

/// The popup's width, as herdr reads it.
pub const POPUP_WIDTH: &'static str = "90%";

/// herdr's minimum popup height; less the border, exactly two interior rows.
pub const POPUP_HEIGHT: usize = 4;

/// The members of the `plugin.pane.open` request for `entrypoint`: a
/// focused popup running this plugin's `run`, with the hop note, if any, in
/// its environment.
pub open spec fn open_fields(plugin: Seq<char>, entrypoint: Seq<char>, note: Option<Seq<char>>) -> Seq<Field> {
    let base = seq![
        ("plugin_id"@, is_text(plugin)),
        ("entrypoint"@, is_text(entrypoint)),
        ("placement"@, is_text("popup"@)),
        ("focus"@, is_bool(true)),
        ("width"@, is_text(POPUP_WIDTH@)),
        ("height"@, is_count(POPUP_HEIGHT as nat)),
    ];
    match note {
        Some(t) => base.push(("env"@, is_obj(seq![(ENV@, is_text(t))]))),
        None => base,
    }
}

/// The params of `plugin.pane.open` for `entrypoint`; `note` is the hop note
/// as the new popup will read it from its environment.
pub fn open_params(plugin_id: &str, entrypoint: &str, note: Option<&str>) -> (r: Json)
    ensures
        fields_are(
            r,
            open_fields(
                plugin_id@,
                entrypoint@,
                match note {
                    Some(t) => Some(t@),
                    None => None,
                },
            ),
        ),
{
    let mut members = vec![
        member_of("plugin_id", Json::text(plugin_id)),
        member_of("entrypoint", Json::text(entrypoint)),
        member_of("placement", Json::text("popup")),
        member_of("focus", Json::Bool(true)),
        member_of("width", Json::text(POPUP_WIDTH)),
        member_of("height", Json::count(POPUP_HEIGHT)),
    ];
    if let Some(t) = note {
        let env = Json::Obj(vec![member_of(ENV, Json::text(t))]);
        assert(fields_are(env, seq![(ENV@, is_text(t@))]));
        members.push(member_of("env", env));
    }
    Json::Obj(members)
}

/// What `open` does after herdr answers `plugin.pane.open`.
#[derive(Clone, Copy, PartialEq, Eq, Structural, Debug)]
pub enum OpenStep {
    /// The popup is up and has the note: take the note away.
    Opened,
    /// Nothing more to do: a popup is already up on a plain keypress, or the
    /// hop was called off.
    Stand,
    /// The old popup has not finished dying yet: ask again shortly.
    Wait,
    /// Take the note away and report the error.
    GiveUp,
}

/// What `open` does with herdr's answer. Only one popup may be open at a
/// time: on a plain keypress a popup already up means the user is already in
/// a mode, a no-op; on a hop it means the old popup is still going, worth
/// waiting for until the hop is called off (its note removed) or time is up.
pub open spec fn spec_open_step(
    reply: Result<Json, Error>,
    resumed: bool,
    still_pending: bool,
    timed_out: bool,
) -> OpenStep {
    match reply {
        Ok(_) => OpenStep::Opened,
        Err(e) => if e.spec_popup_already_open() {
            if !resumed || !still_pending {
                OpenStep::Stand
            } else if timed_out {
                OpenStep::GiveUp
            } else {
                OpenStep::Wait
            }
        } else {
            OpenStep::GiveUp
        },
    }
}

/// Whether `open` has to ask if the note is still kept before it can take
/// its step on `reply`: only when herdr says a popup is already up and this
/// is a hop. Otherwise the answer cannot change the step.
pub fn asks_note(reply: &Result<Json, Error>, resumed: bool) -> (r: bool)
    ensures
        r == (resumed && (*reply matches Err(e) && e.spec_popup_already_open())),
        !r ==> forall|still_pending: bool, timed_out: bool|
            #[trigger] spec_open_step(*reply, resumed, still_pending, timed_out) == spec_open_step(
                *reply,
                resumed,
                false,
                timed_out,
            ),
{
    match reply {
        Ok(_) => false,
        Err(e) => resumed && e.is_popup_already_open(),
    }
}

/// See `spec_open_step`. `resumed` is whether `open` found a note to hand
/// on, `still_pending` whether it is still kept, and `timed_out` whether the
/// wait for the old popup is over.
pub fn open_step(reply: &Result<Json, Error>, resumed: bool, still_pending: bool, timed_out: bool) -> (r: OpenStep)
    ensures
        r == spec_open_step(*reply, resumed, still_pending, timed_out),
{
    match reply {
        Ok(_) => OpenStep::Opened,
        Err(e) => if e.is_popup_already_open() {
            if !resumed || !still_pending {
                OpenStep::Stand
            } else if timed_out {
                OpenStep::GiveUp
            } else {
                OpenStep::Wait
            }
        } else {
            OpenStep::GiveUp
        },
    }
}

/// The string member `field` of the plugin context, or nothing.
pub fn context_id(ctx: &Json, field: &str) -> (r: String)
    ensures
        r@ == or_keep(ctx.text_field(field@), Seq::empty()),
{
    match ctx.text_at(field) {
        Some(s) => s,
        None => String::new(),
    }
}

/// The error `run` answers a mode name the config does not define with.
pub fn unknown_mode(name: &str) -> (r: Error)
    ensures
        r matches Error::Protocol(m) && m@ == "no mode named `"@ + name@ + "`"@,
{
    let mut m = joined("no mode named `", name);
    m.append("`");
    Error::Protocol(m)
}

} // verus!
