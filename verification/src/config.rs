//! Everything a screen remembers across restarts.
//!
//! Note the two opposite null conventions: [`ConfigStore::set_provisioning`] treats `None` as
//! *leave alone*, while [`ConfigStore::set_current_video`] treats `None` as *clear*.

use vstd::prelude::*;
use vstd::string::*;

use crate::ident;
use crate::ident::fresh_device_id;
use crate::text;
use crate::text::{opt_text_eq, starts_with_ignore_case, trim, trim_slashes};

verus! {

/// The memory of a screen.
#[derive(Debug, PartialEq, Eq)]
pub struct Config {
    /// Stable and unique per machine. The server terminates any older socket claiming the
    /// same id, so two screens sharing one would kill each other in a reconnect loop.
    pub device_id: String,
    pub device_name: Option<String>,
    pub store_id: Option<String>,
    /// Bare `host:port` or a full URL. The control URL is derived, never stored.
    pub server: Option<String>,
    pub current_video_id: Option<String>,
    /// None means the screen is standalone.
    pub group_id: Option<String>,
    /// Persisted on purpose: `(now - origin) % duration` stays valid indefinitely, so a
    /// screen rejoins its group after a restart instead of drifting until the next assign.
    pub sync_origin_ms: Option<i64>,
}

/// What a [`Config`] stands for.
#[verifier::ext_equal]
pub struct ConfigView {
    pub device_id: Seq<char>,
    pub device_name: Option<Seq<char>>,
    pub store_id: Option<Seq<char>>,
    pub server: Option<Seq<char>>,
    pub current_video_id: Option<Seq<char>>,
    pub group_id: Option<Seq<char>>,
    pub sync_origin_ms: Option<i64>,
}

impl View for Config {
    type V = ConfigView;

    open spec fn view(&self) -> ConfigView {
        ConfigView {
            device_id: self.device_id@,
            device_name: text::opt_text(self.device_name),
            store_id: text::opt_text(self.store_id),
            server: text::opt_text(self.server),
            current_video_id: text::opt_text(self.current_video_id),
            group_id: text::opt_text(self.group_id),
            sync_origin_ms: self.sync_origin_ms,
        }
    }
}

impl ConfigView {
    /// The memory of a screen that has never run.
    pub open spec fn blank() -> Self {
        ConfigView {
            device_id: Seq::empty(),
            device_name: None,
            store_id: None,
            server: None,
            current_video_id: None,
            group_id: None,
            sync_origin_ms: None,
        }
    }

    /// With what provisioning sets; what it omits is left alone.
    pub open spec fn provisioned(
        self,
        server: Option<Seq<char>>,
        device_name: Option<Seq<char>>,
        store_id: Option<Seq<char>>,
    ) -> Self {
        ConfigView {
            server: if server is Some {
                server
            } else {
                self.server
            },
            device_name: if device_name is Some {
                device_name
            } else {
                self.device_name
            },
            store_id: if store_id is Some {
                store_id
            } else {
                self.store_id
            },
            ..self
        }
    }

    /// With another video playing; what is omitted is cleared.
    pub open spec fn playing(
        self,
        video_id: Option<Seq<char>>,
        group_id: Option<Seq<char>>,
        sync_origin_ms: Option<i64>,
    ) -> Self {
        ConfigView { current_video_id: video_id, group_id, sync_origin_ms, ..self }
    }

    /// The name to show: the screen's own, or its id.
    pub open spec fn display_name(self) -> Seq<char> {
        match self.device_name {
            Some(name) => name,
            None => self.device_id,
        }
    }

    /// The control URL of the server, if there is one.
    pub open spec fn control_url(self) -> Option<Seq<char>> {
        match self.server {
            Some(server) => control_url(server),
            None => None,
        }
    }
}

/// Whether an address begins with a scheme, in whatever case.
pub open spec fn has_scheme(address: Seq<char>, scheme: Seq<char>) -> bool {
    scheme.is_prefix_of(text::lowered(address))
}

/// The URL of a server's control socket: a WebSocket scheme is left as it is, `http` becomes `ws`
/// and `https` becomes `wss`, an address without a scheme gets `ws`; white space around the
/// address and slashes at its end go.
pub open spec fn control_url(server: Seq<char>) -> Option<Seq<char>> {
    let raw = text::without_trailing_slashes(text::trimmed(server));
    if raw.len() == 0 {
        None
    } else if has_scheme(raw, "ws://"@) || has_scheme(raw, "wss://"@) {
        Some(raw + "/ws"@)
    } else if has_scheme(raw, "https://"@) {
        Some("wss://"@ + raw.skip(8) + "/ws"@)
    } else if has_scheme(raw, "http://"@) {
        Some("ws://"@ + raw.skip(7) + "/ws"@)
    } else {
        Some("ws://"@ + raw + "/ws"@)
    }
}

impl Default for Config {
    fn default() -> (blank: Self)
        ensures
            blank@ == ConfigView::blank(),
    {
        Config {
            device_id: String::new(),
            device_name: None,
            store_id: None,
            server: None,
            current_video_id: None,
            group_id: None,
            sync_origin_ms: None,
        }
    }
}

/// A copy of an optional text.
pub(crate) fn copy_opt(s: &Option<String>) -> (copy: Option<String>)
    ensures
        copy == *s,
{
    match s {
        Some(s) => Some(s.clone()),
        None => None,
    }
}

/// An owned copy of an optional text.
pub(crate) fn own_opt(s: Option<&str>) -> (copy: Option<String>)
    ensures
        text::opt_text(copy) == text::opt_str(s),
{
    match s {
        Some(s) => Some(s.to_owned()),
        None => None,
    }
}

/// An optional text, borrowed.
pub(crate) fn borrow_opt(s: &Option<String>) -> (borrowed: Option<&str>)
    ensures
        text::opt_str(borrowed) == text::opt_text(*s),
{
    match s {
        Some(s) => Some(s.as_str()),
        None => None,
    }
}

impl Clone for Config {
    fn clone(&self) -> (copy: Self)
        ensures
            copy == *self,
    {
        Config {
            device_id: self.device_id.clone(),
            device_name: copy_opt(&self.device_name),
            store_id: copy_opt(&self.store_id),
            server: copy_opt(&self.server),
            current_video_id: copy_opt(&self.current_video_id),
            group_id: copy_opt(&self.group_id),
            sync_origin_ms: self.sync_origin_ms,
        }
    }
}

impl Config {
    /// Where the control socket should connect.
    ///
    /// The scheme matters and is easy to get wrong: an `https://` server behind a tunnel
    /// needs `wss://`, and pointing `ws://` at it fails in a way that looks like a network
    /// fault rather than a configuration one.
    pub fn control_url(&self) -> (url: Option<String>)
        ensures
            text::opt_text(url) == self@.control_url(),
    {
        let server = match &self.server {
            Some(server) => server.as_str(),
            None => return None,
        };
        let raw = trim_slashes(trim(server));
        if raw.is_empty() {
            return None;
        }
        proof {
            lemma_schemes_are_lower_case();
        }
        let mut url: String;
        if starts_with_ignore_case(raw, "ws://") || starts_with_ignore_case(raw, "wss://") {
            url = raw.to_owned();
        } else if starts_with_ignore_case(raw, "https://") {
            // Slicing the address as it was given, so the host keeps its casing.
            let end = raw.unicode_len();
            proof {
                reveal_strlit("https://");
                assert(raw@.subrange(8, end as int) =~= raw@.skip(8));
            }
            url = "wss://".to_owned();
            url.append(raw.substring_char(8, end));
        } else if starts_with_ignore_case(raw, "http://") {
            let end = raw.unicode_len();
            proof {
                reveal_strlit("http://");
                assert(raw@.subrange(7, end as int) =~= raw@.skip(7));
            }
            url = "ws://".to_owned();
            url.append(raw.substring_char(7, end));
        } else {
            url = "ws://".to_owned();
            url.append(raw);
        }
        url.append("/ws");
        Some(url)
    }

    /// What to call the screen.
    pub fn display_name(&self) -> (name: &str)
        ensures
            name@ == self@.display_name(),
    {
        match &self.device_name {
            Some(name) => name.as_str(),
            None => self.device_id.as_str(),
        }
    }
}

proof fn lemma_schemes_are_lower_case()
    ensures
        text::lowered("ws://"@) == "ws://"@,
        text::lowered("wss://"@) == "wss://"@,
        text::lowered("http://"@) == "http://"@,
        text::lowered("https://"@) == "https://"@,
{
    reveal_strlit("ws://");
    reveal_strlit("wss://");
    reveal_strlit("http://");
    reveal_strlit("https://");
    assert(text::lowered("ws://"@) =~= "ws://"@);
    assert(text::lowered("wss://"@) =~= "wss://"@);
    assert(text::lowered("http://"@) =~= "http://"@);
    assert(text::lowered("https://"@) =~= "https://"@);
}

/// The memory that a screen runs with, where `id` is what it would be named if it had no id yet.
pub open spec fn loaded(stored: Option<ConfigView>, id: Seq<char>) -> ConfigView {
    let config = match stored {
        Some(config) => config,
        None => ConfigView::blank(),
    };
    if config.device_id.len() == 0 {
        ConfigView { device_id: id, ..config }
    } else {
        config
    }
}

/// What was stored, if anything.
pub open spec fn opt_config(stored: Option<Config>) -> Option<ConfigView> {
    match stored {
        Some(config) => Some(config@),
        None => None,
    }
}

/// Whether what was stored names the machine.
pub open spec fn has_device_id(stored: Option<ConfigView>) -> bool {
    stored matches Some(config) && config.device_id.len() > 0
}

/// A screen's memory while it runs. Whoever changes it writes it to disk.
#[derive(Debug)]
pub struct ConfigStore {
    pub config: Config,
}

impl View for ConfigStore {
    type V = ConfigView;

    open spec fn view(&self) -> ConfigView {
        self.config@
    }
}

impl ConfigStore {
    /// Takes over what was stored, minting a device id on first run.
    ///
    /// What could not be read counts as nothing stored rather than being allowed to stop the
    /// screen: a signage box with no config still has to boot and play what it has.
    pub fn load(stored: Option<Config>) -> (store: Self)
        ensures
            store@ == loaded(opt_config(stored), store@.device_id),
            has_device_id(opt_config(stored)) || ident::is_device_id(store@.device_id),
    {
        let ghost before = opt_config(stored);
        let mut config = match stored {
            Some(config) => config,
            None => Config::default(),
        };
        if config.device_id.as_str().is_empty() {
            config.device_id = fresh_device_id();
        }
        proof {
            assert(config@ =~= loaded(before, config@.device_id));
        }
        ConfigStore { config }
    }

    /// The memory as it is now.
    pub fn snapshot(&self) -> (config: Config)
        ensures
            config@ == self@,
    {
        self.config.clone()
    }

    /// Applies provisioning. **`None` means leave the field alone**: there is no way to clear
    /// one.
    ///
    /// Returns true when something actually changed, so callers can avoid writing and
    /// re-announcing over a no-op.
    pub fn set_provisioning(
        &mut self,
        server: Option<&str>,
        device_name: Option<&str>,
        store_id: Option<&str>,
    ) -> (changed: bool)
        ensures
            final(self)@ == old(self)@.provisioned(
                text::opt_str(server),
                text::opt_str(device_name),
                text::opt_str(store_id),
            ),
            changed == (final(self)@ != old(self)@),
    {
        let ghost before = self@;
        let mut changed = false;
        if server.is_some() && !opt_text_eq(server, borrow_opt(&self.config.server)) {
            self.config.server = own_opt(server);
            changed = true;
        }
        if device_name.is_some() && !opt_text_eq(device_name, borrow_opt(&self.config.device_name)) {
            self.config.device_name = own_opt(device_name);
            changed = true;
        }
        if store_id.is_some() && !opt_text_eq(store_id, borrow_opt(&self.config.store_id)) {
            self.config.store_id = own_opt(store_id);
            changed = true;
        }
        changed
    }

    /// Records what is playing. **`None` means clear**, unlike [`Self::set_provisioning`].
    pub fn set_current_video(
        &mut self,
        video_id: Option<&str>,
        group_id: Option<&str>,
        sync_origin_ms: Option<i64>,
    )
        ensures
            final(self)@ == old(self)@.playing(
                text::opt_str(video_id),
                text::opt_str(group_id),
                sync_origin_ms,
            ),
    {
        self.config.current_video_id = own_opt(video_id);
        self.config.group_id = own_opt(group_id);
        self.config.sync_origin_ms = sync_origin_ms;
    }
}

/// How the config on disk is replaced: all of `config` is written to `temp` first, which is then
/// renamed to `target`.
#[derive(Debug)]
pub struct Rewrite {
    pub config: Config,
    pub temp: String,
    pub target: String,
}

impl ConfigView {
    /// What is written of the memory, to which file it is written first, and which it replaces.
    pub open spec fn rewritten(self) -> (Self, Seq<char>, Seq<char>) {
        (self, "config.json.tmp"@, "config.json"@)
    }
}

impl ConfigStore {
    /// What is written of the memory, and under which names in the data directory: a temporary
    /// file, then a rename, so a crash mid-write leaves the previous config intact rather than a
    /// truncated one.
    pub fn persist(&self) -> (rewrite: Rewrite)
        ensures
            rewrite.config@ == self@,
            rewrite.temp@ == "config.json.tmp"@,
            rewrite.target@ == "config.json"@,
            (rewrite.config@, rewrite.temp@, rewrite.target@) == self@.rewritten(),
    {
        Rewrite {
            config: self.snapshot(),
            temp: "config.json.tmp".to_owned(),
            target: "config.json".to_owned(),
        }
    }
}

/// The files of a directory, by name.
pub type Directory = Map<Seq<char>, Seq<u8>>;

/// Whether a directory is what a crash may leave of a rewrite: as it was, with some beginning of
/// the new content in the temporary file, or with the temporary file renamed, which comes only
/// once everything is in it.
pub open spec fn may_be_left(
    before: Directory,
    temp: Seq<char>,
    target: Seq<char>,
    content: Seq<u8>,
    left: Directory,
) -> bool {
    ||| left == before
    ||| exists|written: int| 0 <= written <= content.len() && left == before.insert(
        temp,
        #[trigger] content.take(written),
    )
    ||| left == before.remove(temp).insert(target, content)
}

/// A crash in the middle of a write cannot leave a screen with half an identity: the config is the
/// previous one or the new one, whole.
pub proof fn law_a_crash_mid_write_leaves_a_whole_config(
    before: Directory,
    content: Seq<u8>,
    left: Directory,
)
    requires
        may_be_left(before, "config.json.tmp"@, "config.json"@, content, left),
    ensures
        left.contains_key("config.json"@) ==> left["config.json"@] == content || (
        before.contains_key("config.json"@) && left["config.json"@] == before["config.json"@]),
        before.contains_key("config.json"@) ==> left.contains_key("config.json"@),
{
    reveal_strlit("config.json.tmp");
    reveal_strlit("config.json");
    assert("config.json.tmp"@.len() == 15 && "config.json"@.len() == 11);
}

/// A device id is minted once and then survives every reload.
pub proof fn law_the_device_id_survives_reloads(
    stored: Option<ConfigView>,
    first: Seq<char>,
    second: Seq<char>,
)
    requires
        ident::is_device_id(first),
    ensures
        loaded(Some(loaded(stored, first)), second) == loaded(stored, first),
        loaded(stored, first).device_id.len() > 0,
        (stored is None ==> loaded(stored, first).device_id == first),
{
}

/// A config that could not be read is replaced: the screen starts blank, under a new id.
pub proof fn law_an_unreadable_config_is_replaced(id: Seq<char>)
    ensures
        loaded(None, id) == (ConfigView { device_id: id, ..ConfigView::blank() }),
{
}

/// Provisioning leaves omitted fields alone, sets the others, and touches nothing else; the same
/// provisioning again changes nothing.
pub proof fn law_provisioning_leaves_omitted_fields_alone(
    config: ConfigView,
    server: Option<Seq<char>>,
    name: Option<Seq<char>>,
    store: Option<Seq<char>>,
)
    ensures
        ({
            let after = config.provisioned(server, name, store);
            &&& server is None ==> after.server == config.server
            &&& name is None ==> after.device_name == config.device_name
            &&& store is None ==> after.store_id == config.store_id
            &&& server is Some ==> after.server == server
            &&& name is Some ==> after.device_name == name
            &&& store is Some ==> after.store_id == store
            &&& after.device_id == config.device_id
            &&& after.playing(None, None, None) == config.playing(None, None, None).provisioned(
                server,
                name,
                store,
            )
            &&& after.provisioned(server, name, store) == after
        }),
        config.provisioned(None, None, None) == config,
{
}

/// Recording what plays clears what is omitted, and touches nothing else.
pub proof fn law_the_current_video_clears_omitted_fields(
    config: ConfigView,
    video: Option<Seq<char>>,
    group: Option<Seq<char>>,
    origin: Option<i64>,
)
    ensures
        ({
            let after = config.playing(video, group, origin);
            &&& video is None ==> after.current_video_id is None
            &&& group is None ==> after.group_id is None
            &&& origin is None ==> after.sync_origin_ms is None
            &&& after.device_id == config.device_id
            &&& after.device_name == config.device_name
            &&& after.store_id == config.store_id
            &&& after.server == config.server
        }),
{
}

/// An unprovisioned screen has no control URL, and one whose server is blank has none either; any
/// other has one, with a WebSocket scheme in front and the socket's path at the end.
pub proof fn law_a_control_url_is_a_websocket_url(config: ConfigView)
    ensures
        config.control_url() is None <==> (config.server is None
            || text::without_trailing_slashes(text::trimmed(config.server->0)).len() == 0),
        config.control_url() matches Some(url) ==> {
            &&& has_scheme(url, "ws://"@) || has_scheme(url, "wss://"@)
            &&& "/ws"@.is_suffix_of(url)
        },
{
    if let Some(url) = config.control_url() {
        let raw = text::without_trailing_slashes(text::trimmed(config.server->0));
        lemma_schemes_are_lower_case();
        assert("/ws"@ =~= url.subrange(url.len() - "/ws"@.len(), url.len() as int));
        let low = text::lowered(url);
        if has_scheme(raw, "ws://"@) {
            assert("ws://"@ =~= low.subrange(0, "ws://"@.len() as int)) by {
                assert forall|i: int| 0 <= i < "ws://"@.len() implies "ws://"@[i] == low[i] by {
                    assert(text::lowered(raw).subrange(0, "ws://"@.len() as int)[i] == "ws://"@[i]);
                }
            }
        } else if has_scheme(raw, "wss://"@) {
            assert("wss://"@ =~= low.subrange(0, "wss://"@.len() as int)) by {
                assert forall|i: int| 0 <= i < "wss://"@.len() implies "wss://"@[i] == low[i] by {
                    assert(text::lowered(raw).subrange(0, "wss://"@.len() as int)[i]
                        == "wss://"@[i]);
                }
            }
        } else if has_scheme(raw, "https://"@) {
            assert("wss://"@ =~= low.subrange(0, "wss://"@.len() as int)) by {
                assert forall|i: int| 0 <= i < "wss://"@.len() implies "wss://"@[i] == low[i] by {
                    assert(text::lowered("wss://"@)[i] == text::lower("wss://"@[i]));
                }
            }
        } else {
            assert("ws://"@ =~= low.subrange(0, "ws://"@.len() as int)) by {
                assert forall|i: int| 0 <= i < "ws://"@.len() implies "ws://"@[i] == low[i] by {
                    assert(text::lowered("ws://"@)[i] == text::lower("ws://"@[i]));
                }
            }
        }
    }
}

/// An `https` server, in whatever case its scheme is written, is reached over `wss` and an `http`
/// server over `ws`, under a host that keeps its casing; a bare host gets plain `ws`.
pub proof fn law_the_scheme_follows_the_server(server: Seq<char>, scheme: Seq<char>, host: Seq<char>)
    requires
        text::without_trailing_slashes(text::trimmed(server)) == scheme + host,
    ensures
        text::lowered(scheme) == "https://"@ ==> control_url(server) == Some("wss://"@ + host + "/ws"@),
        text::lowered(scheme) == "http://"@ ==> control_url(server) == Some("ws://"@ + host + "/ws"@),
        text::lowered(scheme) == "wss://"@ || text::lowered(scheme) == "ws://"@ ==> control_url(server)
            == Some(scheme + host + "/ws"@),
        !has_scheme(scheme + host, "https://"@) && !has_scheme(scheme + host, "http://"@)
            && !has_scheme(scheme + host, "wss://"@) && !has_scheme(scheme + host, "ws://"@)
            && (scheme + host).len() > 0 ==> control_url(server) == Some(
            "ws://"@ + (scheme + host) + "/ws"@,
        ),
{
    reveal_strlit("ws://");
    reveal_strlit("wss://");
    reveal_strlit("http://");
    reveal_strlit("https://");
    let raw = scheme + host;
    let low = text::lowered(raw);
    assert(low =~= text::lowered(scheme) + text::lowered(host));
    assert(raw.skip(scheme.len() as int) =~= host);
    assert(text::lowered(scheme) =~= low.subrange(0, scheme.len() as int));
    if text::lowered(scheme) == "https://"@ || text::lowered(scheme) == "http://"@ {
        assert(low[0] == 'h');
        assert(!has_scheme(raw, "ws://"@)) by {
            if has_scheme(raw, "ws://"@) {
                assert(low.subrange(0, 5)[0] == 'w');
            }
        }
        assert(!has_scheme(raw, "wss://"@)) by {
            if has_scheme(raw, "wss://"@) {
                assert(low.subrange(0, 6)[0] == 'w');
            }
        }
        if text::lowered(scheme) == "http://"@ {
            assert(low[4] == ':');
            assert(!has_scheme(raw, "https://"@)) by {
                if has_scheme(raw, "https://"@) {
                    assert(low.subrange(0, 8)[4] == 's');
                }
            }
        }
    }
}

/// Everything that was stored is remembered: a config with a device id comes back as it was, every
/// field of it, and one without an id changes in nothing but the id.
pub proof fn law_everything_stored_is_remembered(stored: Config, id: Seq<char>)
    ensures
        ({
            let config = loaded(opt_config(Some(stored)), id);
            &&& config.device_name == text::opt_text(stored.device_name)
            &&& config.store_id == text::opt_text(stored.store_id)
            &&& config.server == text::opt_text(stored.server)
            &&& config.current_video_id == text::opt_text(stored.current_video_id)
            &&& config.group_id == text::opt_text(stored.group_id)
            &&& config.sync_origin_ms == stored.sync_origin_ms
            &&& stored.device_id@.len() > 0 ==> config.device_id == stored.device_id@
            &&& stored.device_id@.len() == 0 ==> config.device_id == id
        }),
{
}

/// A screen that remembers nothing starts with an id and nothing else.
pub proof fn law_a_new_screen_has_an_id_and_nothing_else(id: Seq<char>)
    ensures
        ({
            let config = loaded(opt_config(None), id);
            &&& config.device_id == id
            &&& config.device_name is None
            &&& config.store_id is None
            &&& config.server is None
            &&& config.current_video_id is None
            &&& config.group_id is None
            &&& config.sync_origin_ms is None
        }),
{
}

/// What is recorded as playing is what was given, all three of it, and it survives a restart along
/// with everything else.
pub proof fn law_what_plays_is_recorded(
    config: ConfigView,
    video: Option<Seq<char>>,
    group: Option<Seq<char>>,
    origin: Option<i64>,
    id: Seq<char>,
)
    requires
        config.device_id.len() > 0,
    ensures
        ({
            let after = loaded(Some(config.playing(video, group, origin)), id);
            &&& after.current_video_id == video
            &&& after.group_id == group
            &&& after.sync_origin_ms == origin
            &&& after.device_id == config.device_id
            &&& after.device_name == config.device_name
            &&& after.store_id == config.store_id
            &&& after.server == config.server
        }),
{
}

/// A screen is shown under its name, or under its id where it has none.
pub proof fn law_a_screen_is_shown_under_its_name(config: ConfigView)
    ensures
        config.device_name is Some ==> config.display_name() == config.device_name->0,
        config.device_name is None ==> config.display_name() == config.device_id,
{
}

/// A config is known by its fields.
pub proof fn law_a_config_is_known_by_its_fields(a: Config, b: Config)
    ensures
        a@ == b@ <==> {
            &&& a.device_id@ == b.device_id@
            &&& text::opt_text(a.device_name) == text::opt_text(b.device_name)
            &&& text::opt_text(a.store_id) == text::opt_text(b.store_id)
            &&& text::opt_text(a.server) == text::opt_text(b.server)
            &&& text::opt_text(a.current_video_id) == text::opt_text(b.current_video_id)
            &&& text::opt_text(a.group_id) == text::opt_text(b.group_id)
            &&& a.sync_origin_ms == b.sync_origin_ms
        },
{
}

/// What is written is all that is remembered, and it takes a detour: a crash in the middle of it
/// leaves the config whole, and the next start remembers everything.
pub proof fn law_what_is_written_is_what_is_remembered(
    config: ConfigView,
    id: Seq<char>,
    before: Directory,
    content: Seq<u8>,
    left: Directory,
)
    requires
        config.device_id.len() > 0,
        may_be_left(before, config.rewritten().1, config.rewritten().2, content, left),
        before.contains_key("config.json"@),
    ensures
        loaded(Some(config.rewritten().0), id) == config,
        config.rewritten().2 == "config.json"@,
        config.rewritten().1 != config.rewritten().2,
        left.contains_key("config.json"@),
        left["config.json"@] == content || left["config.json"@] == before["config.json"@],
{
    law_a_crash_mid_write_leaves_a_whole_config(before, content, left);
    reveal_strlit("config.json.tmp");
    reveal_strlit("config.json");
    assert("config.json.tmp"@.len() == 15 && "config.json"@.len() == 11);
}

} // verus!
