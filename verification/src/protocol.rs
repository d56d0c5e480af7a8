//! The wire protocol.
//!
//! Three conventions, because one server talks to several kinds of client:
//!
//! - The tag is an inline `"type"` key, not a wrapper.
//! - Variant and field names are **camelCase** (`timeResponse`, `downloadProgress`).
//! - A null field is **omitted**, never written as `null`.

use vstd::prelude::*;
use vstd::string::*;

use crate::json;
use crate::json::{Member, ObjectWriter, Value};
use crate::text;

verus! {

/// Server to player.
#[derive(Debug)]
pub enum ServerMessage {
    /// Make this video the active one.
    Assign {
        video_id: String,
        url: String,
        sha256: String,
        size_bytes: u64,
        /// None when the screen is standalone.
        group_id: Option<String>,
        /// None unless the group is synchronised.
        start_epoch_ms: Option<i64>,
    },
    /// Rebuild the player from the current file: a remote "try turning it off and on".
    Reload,
    /// Put the device name on screen so a human can find screen 11 in a store.
    Identify,
    Reboot,
    GetLogs,
    /// Re-provisions a screen from the dashboard. Omitted fields mean "leave alone".
    Configure { store_id: Option<String>, device_name: Option<String> },
    /// Answer to a [`PlayerMessage::TimeRequest`]; `client_send_ms` is echoed untouched.
    TimeResponse { client_send_ms: i64, server_ms: i64 },
    /// A message that this build does not know, so the server can add messages without taking
    /// the fleet down.
    Unknown,
}

/// Player to server.
#[derive(Debug)]
pub enum PlayerMessage {
    Hello {
        device_id: String,
        store_id: Option<String>,
        device_name: Option<String>,
        app_version: String,
        current_video_id: Option<String>,
    },
    Heartbeat {
        device_id: String,
        /// Repeated from the hello so a dashboard that missed it can still group screens.
        store_id: Option<String>,
        current_video_id: Option<String>,
        playing: bool,
        position_ms: i64,
        free_bytes: u64,
        app_version: String,
        uptime_ms: u64,
    },
    DownloadProgress { video_id: String, percent: u8 },
    Error { code: String, detail: String },
    TimeRequest { client_send_ms: i64 },
    Logs {
        device_id: String,
        /// Tail of the rotating log; whole files are too big for one frame.
        text: String,
        truncated: bool,
    },
}

/// What a [`PlayerMessage`] stands for.
#[verifier::ext_equal]
pub enum PlayerMessageView {
    Hello {
        device_id: Seq<char>,
        store_id: Option<Seq<char>>,
        device_name: Option<Seq<char>>,
        app_version: Seq<char>,
        current_video_id: Option<Seq<char>>,
    },
    Heartbeat {
        device_id: Seq<char>,
        store_id: Option<Seq<char>>,
        current_video_id: Option<Seq<char>>,
        playing: bool,
        position_ms: i64,
        free_bytes: u64,
        app_version: Seq<char>,
        uptime_ms: u64,
    },
    DownloadProgress { video_id: Seq<char>, percent: u8 },
    Error { code: Seq<char>, detail: Seq<char> },
    TimeRequest { client_send_ms: i64 },
    Logs { device_id: Seq<char>, text: Seq<char>, truncated: bool },
}

impl View for PlayerMessage {
    type V = PlayerMessageView;

    open spec fn view(&self) -> PlayerMessageView {
        match *self {
            PlayerMessage::Hello {
                device_id,
                store_id,
                device_name,
                app_version,
                current_video_id,
            } => PlayerMessageView::Hello {
                device_id: device_id@,
                store_id: text::opt_text(store_id),
                device_name: text::opt_text(device_name),
                app_version: app_version@,
                current_video_id: text::opt_text(current_video_id),
            },
            PlayerMessage::Heartbeat {
                device_id,
                store_id,
                current_video_id,
                playing,
                position_ms,
                free_bytes,
                app_version,
                uptime_ms,
            } => PlayerMessageView::Heartbeat {
                device_id: device_id@,
                store_id: text::opt_text(store_id),
                current_video_id: text::opt_text(current_video_id),
                playing,
                position_ms,
                free_bytes,
                app_version: app_version@,
                uptime_ms,
            },
            PlayerMessage::DownloadProgress { video_id, percent } => {
                PlayerMessageView::DownloadProgress { video_id: video_id@, percent }
            },
            PlayerMessage::Error { code, detail } => PlayerMessageView::Error {
                code: code@,
                detail: detail@,
            },
            PlayerMessage::TimeRequest { client_send_ms } => PlayerMessageView::TimeRequest {
                client_send_ms,
            },
            PlayerMessage::Logs { device_id, text, truncated } => PlayerMessageView::Logs {
                device_id: device_id@,
                text: text@,
                truncated,
            },
        }
    }
}

impl PlayerMessageView {
    /// The members of a message's JSON object, in order. A field without a value has none.
    pub open spec fn members(self) -> Seq<Member> {
        match self {
            PlayerMessageView::Hello {
                device_id,
                store_id,
                device_name,
                app_version,
                current_video_id,
            } => {
                seq![("type"@, Value::Text("hello"@)), ("deviceId"@, Value::Text(device_id))]
                    + json::optional("storeId"@, store_id) + json::optional(
                    "deviceName"@,
                    device_name,
                ) + seq![("appVersion"@, Value::Text(app_version))] + json::optional(
                    "currentVideoId"@,
                    current_video_id,
                )
            },
            PlayerMessageView::Heartbeat {
                device_id,
                store_id,
                current_video_id,
                playing,
                position_ms,
                free_bytes,
                app_version,
                uptime_ms,
            } => {
                seq![("type"@, Value::Text("heartbeat"@)), ("deviceId"@, Value::Text(device_id))]
                    + json::optional("storeId"@, store_id) + json::optional(
                    "currentVideoId"@,
                    current_video_id,
                ) + seq![
                    ("playing"@, Value::Flag(playing)),
                    ("positionMs"@, Value::Number(position_ms as int)),
                    ("freeBytes"@, Value::Number(free_bytes as int)),
                    ("appVersion"@, Value::Text(app_version)),
                    ("uptimeMs"@, Value::Number(uptime_ms as int)),
                ]
            },
            PlayerMessageView::DownloadProgress { video_id, percent } => {
                seq![
                    ("type"@, Value::Text("downloadProgress"@)),
                    ("videoId"@, Value::Text(video_id)),
                    ("percent"@, Value::Number(percent as int)),
                ]
            },
            PlayerMessageView::Error { code, detail } => {
                seq![
                    ("type"@, Value::Text("error"@)),
                    ("code"@, Value::Text(code)),
                    ("detail"@, Value::Text(detail)),
                ]
            },
            PlayerMessageView::TimeRequest { client_send_ms } => {
                seq![
                    ("type"@, Value::Text("timeRequest"@)),
                    ("clientSendMs"@, Value::Number(client_send_ms as int)),
                ]
            },
            PlayerMessageView::Logs { device_id, text, truncated } => {
                seq![
                    ("type"@, Value::Text("logs"@)),
                    ("deviceId"@, Value::Text(device_id)),
                    ("text"@, Value::Text(text)),
                    ("truncated"@, Value::Flag(truncated)),
                ]
            },
        }
    }
}

impl PlayerMessage {
    /// The message as it goes over the wire.
    pub fn to_json(&self) -> (json: String)
        ensures
            json@ == json::object_text(self@.members()),
    {
        let mut object = ObjectWriter::new();
        match self {
            PlayerMessage::Hello {
                device_id,
                store_id,
                device_name,
                app_version,
                current_video_id,
            } => {
                object.text("type", "hello");
                object.text("deviceId", device_id.as_str());
                object.opt_text("storeId", store_id);
                object.opt_text("deviceName", device_name);
                object.text("appVersion", app_version.as_str());
                object.opt_text("currentVideoId", current_video_id);
            },
            PlayerMessage::Heartbeat {
                device_id,
                store_id,
                current_video_id,
                playing,
                position_ms,
                free_bytes,
                app_version,
                uptime_ms,
            } => {
                object.text("type", "heartbeat");
                object.text("deviceId", device_id.as_str());
                object.opt_text("storeId", store_id);
                object.opt_text("currentVideoId", current_video_id);
                object.flag("playing", *playing);
                object.number("positionMs", *position_ms as i128);
                object.number("freeBytes", *free_bytes as i128);
                object.text("appVersion", app_version.as_str());
                object.number("uptimeMs", *uptime_ms as i128);
            },
            PlayerMessage::DownloadProgress { video_id, percent } => {
                object.text("type", "downloadProgress");
                object.text("videoId", video_id.as_str());
                object.number("percent", *percent as i128);
            },
            PlayerMessage::Error { code, detail } => {
                object.text("type", "error");
                object.text("code", code.as_str());
                object.text("detail", detail.as_str());
            },
            PlayerMessage::TimeRequest { client_send_ms } => {
                object.text("type", "timeRequest");
                object.number("clientSendMs", *client_send_ms as i128);
            },
            PlayerMessage::Logs { device_id, text, truncated } => {
                object.text("type", "logs");
                object.text("deviceId", device_id.as_str());
                object.text("text", text.as_str());
                object.flag("truncated", *truncated);
            },
        }
        proof {
            assert(object.members@ =~= self@.members());
        }
        object.finish()
    }
}

/// Sent in the hello and every heartbeat.
///
/// The server stores this verbatim and does not otherwise know what platform a screen is, so the
/// prefix is what distinguishes these screens from others in the dashboard.
pub fn app_version() -> (version: String)
    ensures
        version@ == "desktop-0.1.2"@,
{
    "desktop-0.1.2".to_owned()
}

/// Whether an object has a member of a name.
pub open spec fn has_member(members: Seq<Member>, name: Seq<char>) -> bool {
    exists|i: int| 0 <= i < members.len() && (#[trigger] members[i]).0 == name
}

/// The tag is an inline key, and the first one.
pub proof fn law_the_tag_comes_first(message: PlayerMessageView)
    ensures
        message.members().len() > 1,
        message.members()[0].0 == "type"@,
        message.members()[0].1 is Text,
{
}

proof fn lemma_has_member_either(a: Seq<Member>, b: Seq<Member>, name: Seq<char>)
    ensures
        has_member(a + b, name) <==> has_member(a, name) || has_member(b, name),
{
    if has_member(a, name) {
        let i = choose|i: int| 0 <= i < a.len() && (#[trigger] a[i]).0 == name;
        assert((a + b)[i].0 == name);
    }
    if has_member(b, name) {
        let i = choose|i: int| 0 <= i < b.len() && (#[trigger] b[i]).0 == name;
        assert((a + b)[a.len() + i].0 == name);
    }
    if has_member(a + b, name) {
        let i = choose|i: int| 0 <= i < (a + b).len() && (#[trigger] (a + b)[i]).0 == name;
        if i < a.len() {
            assert(a[i].0 == name);
        } else {
            assert(b[i - a.len()].0 == name);
        }
    }
}

proof fn lemma_optional_member(name: Seq<char>, value: Option<Seq<char>>, asked: Seq<char>)
    ensures
        has_member(json::optional(name, value), asked) <==> value is Some && name == asked,
{
    if value is Some && name == asked {
        assert(json::optional(name, value)[0].0 == asked);
    }
}

proof fn lemma_names_differ()
    ensures
        "storeId"@ != "type"@,
        "storeId"@ != "deviceId"@,
        "storeId"@ != "deviceName"@,
        "storeId"@ != "appVersion"@,
        "storeId"@ != "currentVideoId"@,
        "storeId"@ != "playing"@,
        "storeId"@ != "positionMs"@,
        "storeId"@ != "freeBytes"@,
        "storeId"@ != "uptimeMs"@,
        "deviceName"@ != "type"@,
        "deviceName"@ != "deviceId"@,
        "deviceName"@ != "appVersion"@,
        "deviceName"@ != "currentVideoId"@,
        "currentVideoId"@ != "type"@,
        "currentVideoId"@ != "deviceId"@,
        "currentVideoId"@ != "appVersion"@,
        "currentVideoId"@ != "playing"@,
        "currentVideoId"@ != "positionMs"@,
        "currentVideoId"@ != "freeBytes"@,
        "currentVideoId"@ != "uptimeMs"@,
{
    reveal_strlit("type");
    reveal_strlit("deviceId");
    reveal_strlit("storeId");
    reveal_strlit("deviceName");
    reveal_strlit("appVersion");
    reveal_strlit("currentVideoId");
    reveal_strlit("playing");
    reveal_strlit("positionMs");
    reveal_strlit("freeBytes");
    reveal_strlit("uptimeMs");
    assert("type"@.len() == 4 && "deviceId"@.len() == 8 && "storeId"@.len() == 7);
    assert("deviceName"@.len() == 10 && "appVersion"@.len() == 10);
    assert("currentVideoId"@.len() == 14 && "playing"@.len() == 7);
    assert("positionMs"@.len() == 10 && "freeBytes"@.len() == 9 && "uptimeMs"@.len() == 8);
    assert("storeId"@[0] == 's' && "playing"@[0] == 'p');
    assert("deviceName"@[0] == 'd' && "appVersion"@[0] == 'a');
}

/// A hello leaves out what has no value, and only that.
pub proof fn law_a_hello_omits_null_fields(
    device_id: Seq<char>,
    store_id: Option<Seq<char>>,
    device_name: Option<Seq<char>>,
    app_version: Seq<char>,
    current_video_id: Option<Seq<char>>,
)
    ensures
        ({
            let members = PlayerMessageView::Hello {
                device_id,
                store_id,
                device_name,
                app_version,
                current_video_id,
            }.members();
            &&& has_member(members, "storeId"@) <==> store_id is Some
            &&& has_member(members, "deviceName"@) <==> device_name is Some
            &&& has_member(members, "currentVideoId"@) <==> current_video_id is Some
        }),
{
    lemma_names_differ();
    let a = seq![("type"@, Value::Text("hello"@)), ("deviceId"@, Value::Text(device_id))];
    let b = json::optional("storeId"@, store_id);
    let c = json::optional("deviceName"@, device_name);
    let d = seq![("appVersion"@, Value::Text(app_version))];
    let e = json::optional("currentVideoId"@, current_video_id);
    assert forall|n: Seq<char>|
        n == "storeId"@ || n == "deviceName"@ || n == "currentVideoId"@ implies has_member(
        a + b + c + d + e,
        n,
    ) == (store_id is Some && n == "storeId"@ || device_name is Some && n == "deviceName"@
        || current_video_id is Some && n == "currentVideoId"@) by {
        lemma_has_member_either(a, b, n);
        lemma_has_member_either(a + b, c, n);
        lemma_has_member_either(a + b + c, d, n);
        lemma_has_member_either(a + b + c + d, e, n);
        lemma_optional_member("storeId"@, store_id, n);
        lemma_optional_member("deviceName"@, device_name, n);
        lemma_optional_member("currentVideoId"@, current_video_id, n);
        assert(!has_member(a, n)) by {
            assert(forall|i: int| 0 <= i < a.len() ==> (#[trigger] a[i]).0 != n);
        }
        assert(!has_member(d, n));
    }
}

/// A heartbeat leaves out what has no value, and only that.
pub proof fn law_a_heartbeat_omits_null_fields(
    device_id: Seq<char>,
    store_id: Option<Seq<char>>,
    current_video_id: Option<Seq<char>>,
    playing: bool,
    position_ms: i64,
    free_bytes: u64,
    app_version: Seq<char>,
    uptime_ms: u64,
)
    ensures
        ({
            let members = PlayerMessageView::Heartbeat {
                device_id,
                store_id,
                current_video_id,
                playing,
                position_ms,
                free_bytes,
                app_version,
                uptime_ms,
            }.members();
            &&& has_member(members, "storeId"@) <==> store_id is Some
            &&& has_member(members, "currentVideoId"@) <==> current_video_id is Some
        }),
{
    lemma_names_differ();
    let a = seq![("type"@, Value::Text("heartbeat"@)), ("deviceId"@, Value::Text(device_id))];
    let b = json::optional("storeId"@, store_id);
    let c = json::optional("currentVideoId"@, current_video_id);
    let d = seq![
        ("playing"@, Value::Flag(playing)),
        ("positionMs"@, Value::Number(position_ms as int)),
        ("freeBytes"@, Value::Number(free_bytes as int)),
        ("appVersion"@, Value::Text(app_version)),
        ("uptimeMs"@, Value::Number(uptime_ms as int)),
    ];
    assert forall|n: Seq<char>| n == "storeId"@ || n == "currentVideoId"@ implies has_member(
        a + b + c + d,
        n,
    ) == (store_id is Some && n == "storeId"@ || current_video_id is Some && n
        == "currentVideoId"@) by {
        lemma_has_member_either(a, b, n);
        lemma_has_member_either(a + b, c, n);
        lemma_has_member_either(a + b + c, d, n);
        lemma_optional_member("storeId"@, store_id, n);
        lemma_optional_member("currentVideoId"@, current_video_id, n);
        assert(!has_member(a, n)) by {
            assert(forall|i: int| 0 <= i < a.len() ==> (#[trigger] a[i]).0 != n);
        }
        assert(!has_member(d, n)) by {
            assert(forall|i: int| 0 <= i < d.len() ==> (#[trigger] d[i]).0 != n);
        }
    }
}

/// Whether an object has exactly one member of a name, with this value.
pub open spec fn tells(members: Seq<Member>, name: Seq<char>, value: Value) -> bool {
    &&& members.contains((name, value))
    &&& forall|i: int|
        0 <= i < members.len() && (#[trigger] members[i]).0 == name ==> members[i].1 == value
}

/// Whether an object has a member of a name with this text, or none where there is no text.
pub open spec fn may_tell(members: Seq<Member>, name: Seq<char>, value: Option<Seq<char>>) -> bool {
    if value is Some {
        tells(members, name, Value::Text(value->0))
    } else {
        !has_member(members, name)
    }
}

proof fn lemma_all_names_differ()
    ensures
        "deviceId"@ != "type"@,
        "deviceId"@ != "deviceName"@,
        "deviceId"@ != "appVersion"@,
        "deviceId"@ != "playing"@,
        "deviceId"@ != "positionMs"@,
        "deviceId"@ != "freeBytes"@,
        "deviceId"@ != "uptimeMs"@,
        "appVersion"@ != "type"@,
        "appVersion"@ != "playing"@,
        "appVersion"@ != "positionMs"@,
        "appVersion"@ != "freeBytes"@,
        "appVersion"@ != "uptimeMs"@,
        "playing"@ != "type"@,
        "playing"@ != "positionMs"@,
        "playing"@ != "freeBytes"@,
        "playing"@ != "uptimeMs"@,
        "positionMs"@ != "type"@,
        "positionMs"@ != "freeBytes"@,
        "positionMs"@ != "uptimeMs"@,
        "freeBytes"@ != "type"@,
        "freeBytes"@ != "uptimeMs"@,
        "uptimeMs"@ != "type"@,
{
    lemma_names_differ();
    reveal_strlit("type");
    reveal_strlit("deviceId");
    reveal_strlit("deviceName");
    reveal_strlit("appVersion");
    reveal_strlit("playing");
    reveal_strlit("positionMs");
    reveal_strlit("freeBytes");
    reveal_strlit("uptimeMs");
    assert("type"@.len() == 4 && "deviceId"@.len() == 8 && "deviceName"@.len() == 10);
    assert("appVersion"@.len() == 10 && "playing"@.len() == 7 && "positionMs"@.len() == 10);
    assert("freeBytes"@.len() == 9 && "uptimeMs"@.len() == 8);
    assert("deviceId"@[0] == 'd' && "uptimeMs"@[0] == 'u');
    assert("appVersion"@[0] == 'a' && "positionMs"@[0] == 'p');
}

/// A heartbeat tells what it holds, each field under its name.
pub proof fn law_a_heartbeat_tells_what_it_holds(message: PlayerMessage)
    requires
        message is Heartbeat,
    ensures
        ({
            let told = message@.members();
            &&& tells(told, "type"@, Value::Text("heartbeat"@))
            &&& tells(told, "deviceId"@, Value::Text(message->Heartbeat_device_id@))
            &&& may_tell(told, "storeId"@, text::opt_text(message->Heartbeat_store_id))
            &&& may_tell(
                told,
                "currentVideoId"@,
                text::opt_text(message->Heartbeat_current_video_id),
            )
            &&& tells(told, "playing"@, Value::Flag(message->playing))
            &&& tells(told, "positionMs"@, Value::Number(message->position_ms as int))
            &&& tells(told, "freeBytes"@, Value::Number(message->free_bytes as int))
            &&& tells(told, "appVersion"@, Value::Text(message->Heartbeat_app_version@))
            &&& tells(told, "uptimeMs"@, Value::Number(message->uptime_ms as int))
        }),
{
    lemma_names_differ();
    lemma_all_names_differ();
    let told = message@.members();
    law_a_heartbeat_omits_null_fields(
        message@->Heartbeat_device_id,
        message@->Heartbeat_store_id,
        message@->Heartbeat_current_video_id,
        message@->playing,
        message@->position_ms,
        message@->free_bytes,
        message@->Heartbeat_app_version,
        message@->uptime_ms,
    );
    let n = told.len() as int;
    assert(told.contains(told[0]));
    assert(told.contains(told[1]));
    assert(told.contains(told[2]));
    assert(told.contains(told[3]));
    assert(told.contains(told[n - 5]));
    assert(told.contains(told[n - 4]));
    assert(told.contains(told[n - 3]));
    assert(told.contains(told[n - 2]));
    assert(told.contains(told[n - 1]));
}

/// A hello tells what it holds, each field under its name.
pub proof fn law_a_hello_tells_what_it_holds(message: PlayerMessage)
    requires
        message is Hello,
    ensures
        ({
            let told = message@.members();
            &&& tells(told, "type"@, Value::Text("hello"@))
            &&& tells(told, "deviceId"@, Value::Text(message->Hello_device_id@))
            &&& may_tell(told, "storeId"@, text::opt_text(message->Hello_store_id))
            &&& may_tell(told, "deviceName"@, text::opt_text(message->device_name))
            &&& tells(told, "appVersion"@, Value::Text(message->Hello_app_version@))
            &&& may_tell(
                told,
                "currentVideoId"@,
                text::opt_text(message->Hello_current_video_id),
            )
        }),
{
    lemma_names_differ();
    lemma_all_names_differ();
    let told = message@.members();
    law_a_hello_omits_null_fields(
        message@->Hello_device_id,
        message@->Hello_store_id,
        message@->device_name,
        message@->Hello_app_version,
        message@->Hello_current_video_id,
    );
    let n = told.len() as int;
    let store: int = if message@->Hello_store_id is Some {
        1
    } else {
        0
    };
    let name: int = if message@->device_name is Some {
        1
    } else {
        0
    };
    assert(told.contains(told[0]));
    assert(told.contains(told[1]));
    assert(told.contains(told[2]));
    assert(told.contains(told[2 + store]));
    assert(told.contains(told[2 + store + name]));
    assert(told.contains(told[n - 1]));
}

/// Progress, errors, questions for the time and logs tell what they hold, each field under its
/// name.
pub proof fn law_the_other_messages_tell_what_they_hold(message: PlayerMessage)
    ensures
        message matches PlayerMessage::DownloadProgress { video_id, percent } ==> {
            let told = message@.members();
            &&& told.len() == 3
            &&& told.contains(("type"@, Value::Text("downloadProgress"@)))
            &&& told.contains(("videoId"@, Value::Text(video_id@)))
            &&& told.contains(("percent"@, Value::Number(percent as int)))
        },
        message matches PlayerMessage::Error { code, detail } ==> {
            let told = message@.members();
            &&& told.len() == 3
            &&& told.contains(("type"@, Value::Text("error"@)))
            &&& told.contains(("code"@, Value::Text(code@)))
            &&& told.contains(("detail"@, Value::Text(detail@)))
        },
        message matches PlayerMessage::TimeRequest { client_send_ms } ==> {
            let told = message@.members();
            &&& told.len() == 2
            &&& told.contains(("type"@, Value::Text("timeRequest"@)))
            &&& told.contains(("clientSendMs"@, Value::Number(client_send_ms as int)))
        },
        message matches PlayerMessage::Logs { device_id, text, truncated } ==> {
            let told = message@.members();
            &&& told.len() == 4
            &&& told.contains(("type"@, Value::Text("logs"@)))
            &&& told.contains(("deviceId"@, Value::Text(device_id@)))
            &&& told.contains(("text"@, Value::Text(text@)))
            &&& told.contains(("truncated"@, Value::Flag(truncated)))
        },
{
    let told = message@.members();
    if !(message is Hello) && !(message is Heartbeat) {
        assert(told.contains(told[0]));
        assert(told.contains(told[1]));
        if told.len() > 2 {
            assert(told.contains(told[2]));
        }
        if told.len() > 3 {
            assert(told.contains(told[3]));
        }
    }
}

} // verus!
