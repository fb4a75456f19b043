//! The settings of a user: whom the device talks to, and where.

use crate::address::{is_private_or_loopback, Endpoint};
use crate::failure::Failure;
use crate::security;
use crate::security::CertificateFingerprint;
use crate::text;
use vstd::prelude::*;

verus! {

/// Name of the settings file.
pub const SETTINGS_FILE: &'static str = "settings.v1";

/// First line of the settings file.
pub const SETTINGS_HEADER: &'static str = "ClipFerrySettingsV1";

/// Longest settings file that is read, in bytes.
pub const SETTINGS_LIMIT: u64 = 4096;

/// The settings of a user.
#[derive(Clone, Copy, Debug)]
pub struct AppSettings {
    pub local_endpoint: Endpoint,
    pub active_peer: CertificateFingerprint,
    pub peer_endpoint: Endpoint,
    pub auto_receive: bool,
}

/// The values of a settings file as they are written there.
#[derive(Debug)]
pub struct SettingsText {
    pub local_endpoint: String,
    pub active_peer: String,
    pub peer_endpoint: String,
    pub auto_receive: String,
}

/// The values of a settings file that were read so far.
#[verifier::ext_equal]
pub struct FieldsView {
    pub local_endpoint: Option<Seq<char>>,
    pub active_peer: Option<Seq<char>>,
    pub peer_endpoint: Option<Seq<char>>,
    pub auto_receive: Option<Seq<char>>,
}

/// The values of a settings file.
#[verifier::ext_equal]
pub struct SettingsView {
    pub local_endpoint: Seq<char>,
    pub active_peer: Seq<char>,
    pub peer_endpoint: Seq<char>,
    pub auto_receive: Seq<char>,
}

impl View for SettingsText {
    type V = SettingsView;

    open spec fn view(&self) -> SettingsView {
        SettingsView {
            local_endpoint: self.local_endpoint@,
            active_peer: self.active_peer@,
            peer_endpoint: self.peer_endpoint@,
            auto_receive: self.auto_receive@,
        }
    }
}

/// A line without the carriage return at its end.
pub open spec fn without_return(line: Seq<char>) -> Seq<char> {
    if line.len() > 0 && line.last() == '\r' {
        line.drop_last()
    } else {
        line
    }
}

/// The lines of a text. A line ends in a line feed, with or without a carriage return before it;
/// what follows the last line feed is a line where it is not empty.
pub open spec fn lines(text: Seq<char>) -> Seq<Seq<char>>
    decreases text.len(),
{
    let end = text::position(text, '\n') as int;
    if text.len() == 0 {
        Seq::empty()
    } else if end >= text.len() || end < 0 {
        seq![text]
    } else {
        seq![without_return(text.take(end))] + lines(text.skip(end + 1))
    }
}

impl FieldsView {
    pub open spec fn none() -> FieldsView {
        FieldsView {
            local_endpoint: None,
            active_peer: None,
            peer_endpoint: None,
            auto_receive: None,
        }
    }

    /// The values once a line was read.
    pub open spec fn with_line(self, line: Seq<char>) -> Result<FieldsView, Failure> {
        let mark = text::position(line, '=') as int;
        let key = line.take(mark);
        let value = line.skip(mark + 1);
        if line.len() == 0 {
            Ok(self)
        } else if mark >= line.len() {
            Err(Failure::invalid("settings line is missing '='"))
        } else if key == "local_endpoint"@ {
            if self.local_endpoint is Some {
                Err(Failure::invalid("settings contain a duplicate field"))
            } else {
                Ok(FieldsView { local_endpoint: Some(value), ..self })
            }
        } else if key == "active_peer"@ {
            if self.active_peer is Some {
                Err(Failure::invalid("settings contain a duplicate field"))
            } else {
                Ok(FieldsView { active_peer: Some(value), ..self })
            }
        } else if key == "peer_endpoint"@ {
            if self.peer_endpoint is Some {
                Err(Failure::invalid("settings contain a duplicate field"))
            } else {
                Ok(FieldsView { peer_endpoint: Some(value), ..self })
            }
        } else if key == "auto_receive"@ {
            if self.auto_receive is Some {
                Err(Failure::invalid("settings contain a duplicate field"))
            } else {
                Ok(FieldsView { auto_receive: Some(value), ..self })
            }
        } else {
            Err(Failure::invalid("settings contain an unknown field"))
        }
    }

    /// The values once all lines were read.
    pub open spec fn with_lines(self, lines: Seq<Seq<char>>) -> Result<FieldsView, Failure>
        decreases lines.len(),
    {
        if lines.len() == 0 {
            Ok(self)
        } else {
            match self.with_line(lines[0]) {
                Err(failure) => Err(failure),
                Ok(next) => next.with_lines(lines.skip(1)),
            }
        }
    }
}

/// The values of a settings file.
pub open spec fn settings_outcome(text: Seq<char>) -> Result<SettingsView, Failure> {
    let all = lines(text);
    if all.len() == 0 || all[0] != SETTINGS_HEADER@ {
        Err(Failure::invalid("unsupported settings header"))
    } else {
        match FieldsView::none().with_lines(all.skip(1)) {
            Err(failure) => Err(failure),
            Ok(fields) => match (
                fields.local_endpoint,
                fields.active_peer,
                fields.peer_endpoint,
                fields.auto_receive,
            ) {
                (
                    Some(local_endpoint),
                    Some(active_peer),
                    Some(peer_endpoint),
                    Some(auto_receive),
                ) => Ok(SettingsView { local_endpoint, active_peer, peer_endpoint, auto_receive }),
                _ => Err(Failure::invalid("settings are incomplete")),
            },
        }
    }
}

/// Why an endpoint is refused: it needs a port, and an address of the device itself or of the
/// local network.
pub open spec fn endpoint_outcome(endpoint: Endpoint) -> Result<(), Failure> {
    if endpoint.port == 0 {
        Err(Failure::invalid("endpoint port must not be zero"))
    } else if !endpoint.ip.spec_near() {
        Err(Failure::invalid("endpoint must use a loopback or private unicast address"))
    } else {
        Ok(())
    }
}

/// Verifies that an endpoint has a port and an address of the device itself or of the local
/// network.
pub fn validate_private_endpoint(endpoint: Endpoint) -> (result: Result<(), Failure>)
    ensures
        result == endpoint_outcome(endpoint),
{
    if endpoint.port == 0 {
        return Err(Failure::invalid("endpoint port must not be zero"));
    }
    if !is_private_or_loopback(endpoint.ip) {
        return Err(Failure::invalid("endpoint must use a loopback or private unicast address"));
    }
    Ok(())
}

/// Checks the length of a settings file.
pub fn check_length(length: u64) -> (result: Result<(), Failure>)
    ensures
        result == if 0 < length <= SETTINGS_LIMIT {
            Ok::<(), Failure>(())
        } else {
            Err(Failure::invalid("settings file length is outside the allowed bounds"))
        },
{
    if length == 0 || length > SETTINGS_LIMIT {
        return Err(Failure::invalid("settings file length is outside the allowed bounds"));
    }
    Ok(())
}

/// The values that were read so far.
struct Fields {
    local_endpoint: Option<Vec<char>>,
    active_peer: Option<Vec<char>>,
    peer_endpoint: Option<Vec<char>>,
    auto_receive: Option<Vec<char>>,
}

spec fn held(value: Option<Vec<char>>) -> Option<Seq<char>> {
    match value {
        Some(value) => Some(value@),
        None => None,
    }
}

impl View for Fields {
    type V = FieldsView;

    closed spec fn view(&self) -> FieldsView {
        FieldsView {
            local_endpoint: held(self.local_endpoint),
            active_peer: held(self.active_peer),
            peer_endpoint: held(self.peer_endpoint),
            auto_receive: held(self.auto_receive),
        }
    }
}

fn is_key(line: &[char], mark: usize, key: &str) -> (same: bool)
    requires
        mark <= line@.len(),
    ensures
        same == (line@.take(mark as int) == key@),
{
    let wanted = text::characters(key);
    assert(line@.subrange(0, mark as int) =~= line@.take(mark as int));
    text::same_characters(&line[0..mark], wanted.as_slice())
}

fn copied(characters: &[char], start: usize, end: usize) -> (copy: Vec<char>)
    requires
        start <= end <= characters@.len(),
    ensures
        copy@ == characters@.subrange(start as int, end as int),
{
    let mut copy: Vec<char> = Vec::new();
    copy.extend_from_slice(&characters[start..end]);
    assert(copy@ =~= characters@.subrange(start as int, end as int));
    copy
}

impl Fields {
    fn take_line(&mut self, line: &[char]) -> (result: Result<(), Failure>)
        ensures
            match old(self)@.with_line(line@) {
                Ok(fields) => result == Ok::<(), Failure>(()) && final(self)@ == fields,
                Err(failure) => result == Err::<(), Failure>(failure),
            },
    {
        if line.len() == 0 {
            return Ok(());
        }
        let mark: usize = text::find(line, '=');
        if mark >= line.len() {
            return Err(Failure::invalid("settings line is missing '='"));
        }
        let value = copied(line, mark + 1, line.len());
        assert(value@ =~= line@.skip(mark + 1));
        if is_key(line, mark, "local_endpoint") {
            if self.local_endpoint.is_some() {
                return Err(Failure::invalid("settings contain a duplicate field"));
            }
            self.local_endpoint = Some(value);
        } else if is_key(line, mark, "active_peer") {
            if self.active_peer.is_some() {
                return Err(Failure::invalid("settings contain a duplicate field"));
            }
            self.active_peer = Some(value);
        } else if is_key(line, mark, "peer_endpoint") {
            if self.peer_endpoint.is_some() {
                return Err(Failure::invalid("settings contain a duplicate field"));
            }
            self.peer_endpoint = Some(value);
        } else if is_key(line, mark, "auto_receive") {
            if self.auto_receive.is_some() {
                return Err(Failure::invalid("settings contain a duplicate field"));
            }
            self.auto_receive = Some(value);
        } else {
            return Err(Failure::invalid("settings contain an unknown field"));
        }
        Ok(())
    }
}

/// The line at the start of characters, and where the next one starts.
fn first_line(characters: &[char], start: usize) -> (first: (Vec<char>, usize))
    requires
        start < characters@.len(),
    ensures
        start < first.1 <= characters@.len(),
        lines(characters@.skip(start as int)) == seq![first.0@] + lines(
            characters@.skip(first.1 as int),
        ),
{
    let ghost rest = characters@.skip(start as int);
    assert(characters@.subrange(start as int, characters@.len() as int) =~= rest);
    let length: usize = text::find(&characters[start..characters.len()], '\n');
    proof {
        text::lemma_position(rest, '\n');
    }
    if length >= characters.len() - start {
        let line = copied(characters, start, characters.len());
        assert(line@ =~= rest);
        assert(characters@.skip(characters@.len() as int) =~= Seq::<char>::empty());
        assert(lines(rest) =~= seq![line@] + lines(Seq::<char>::empty()));
        return (line, characters.len());
    }
    let end: usize = start + length;
    let mut stop: usize = end;
    if length > 0 && characters[end - 1] == '\r' {
        stop = end - 1;
    }
    let line = copied(characters, start, stop);
    assert(line@ =~= without_return(rest.take(length as int)));
    assert(rest.skip(length + 1) =~= characters@.skip(end + 1));
    (line, end + 1)
}

/// Reads the values of a settings file.
pub fn decode(text: &str) -> (result: Result<SettingsText, Failure>)
    ensures
        match result {
            Ok(settings) => settings_outcome(text@) == Ok::<SettingsView, Failure>(settings@),
            Err(failure) => settings_outcome(text@) == Err::<SettingsView, Failure>(failure),
        },
{
    let characters = text::characters(text);
    let all = characters.as_slice();
    assert(all@.skip(0) =~= text@);
    if all.len() == 0 {
        return Err(Failure::invalid("unsupported settings header"));
    }
    let (header, mut cursor) = first_line(all, 0);
    let wanted = text::characters(SETTINGS_HEADER);
    let ghost body = lines(all@.skip(cursor as int));
    assert(lines(text@).skip(1) =~= body);
    if !text::same_characters(header.as_slice(), wanted.as_slice()) {
        return Err(Failure::invalid("unsupported settings header"));
    }
    let mut fields = Fields {
        local_endpoint: None,
        active_peer: None,
        peer_endpoint: None,
        auto_receive: None,
    };
    while cursor < all.len()
        invariant
            cursor <= all@.len(),
            FieldsView::none().with_lines(body) == fields@.with_lines(
                lines(all@.skip(cursor as int)),
            ),
            lines(text@).len() > 0,
            lines(text@)[0] == SETTINGS_HEADER@,
            lines(text@).skip(1) == body,
        decreases all@.len() - cursor,
    {
        let ghost rest = lines(all@.skip(cursor as int));
        let (line, next) = first_line(all, cursor);
        assert(rest.skip(1) =~= lines(all@.skip(next as int)));
        match fields.take_line(line.as_slice()) {
            Err(failure) => {
                return Err(failure);
            },
            Ok(_) => {},
        }
        cursor = next;
    }
    assert(all@.skip(cursor as int) =~= Seq::<char>::empty());
    match (
        fields.local_endpoint,
        fields.active_peer,
        fields.peer_endpoint,
        fields.auto_receive,
    ) {
        (Some(local_endpoint), Some(active_peer), Some(peer_endpoint), Some(auto_receive)) => Ok(
            SettingsText {
                local_endpoint: text::text_of(local_endpoint.as_slice()),
                active_peer: text::text_of(active_peer.as_slice()),
                peer_endpoint: text::text_of(peer_endpoint.as_slice()),
                auto_receive: text::text_of(auto_receive.as_slice()),
            },
        ),
        _ => Err(Failure::invalid("settings are incomplete")),
    }
}

/// What an endpoint in a settings file gives, if its text is that of one.
pub open spec fn parsed_endpoint(endpoint: Option<Endpoint>) -> Result<Endpoint, Failure> {
    match endpoint {
        None => Err(Failure::invalid("settings contain an invalid socket endpoint")),
        Some(endpoint) => match endpoint_outcome(endpoint) {
            Err(failure) => Err(failure),
            Ok(_) => Ok(endpoint),
        },
    }
}

fn check_parsed(endpoint: Option<Endpoint>) -> (result: Result<Endpoint, Failure>)
    ensures
        result == parsed_endpoint(endpoint),
{
    match endpoint {
        None => Err(Failure::invalid("settings contain an invalid socket endpoint")),
        Some(endpoint) => match validate_private_endpoint(endpoint) {
            Err(failure) => Err(failure),
            Ok(_) => Ok(endpoint),
        },
    }
}

/// Whether values say settings, given what the texts of the two endpoints stand for.
pub open spec fn says(
    values: SettingsView,
    local: Option<Endpoint>,
    peer: Option<Endpoint>,
    settings: AppSettings,
) -> bool {
    &&& parsed_endpoint(local) == Ok::<Endpoint, Failure>(settings.local_endpoint)
    &&& security::fingerprint_bytes(values.active_peer) == Some(settings.active_peer.0@)
    &&& parsed_endpoint(peer) == Ok::<Endpoint, Failure>(settings.peer_endpoint)
    &&& settings.auto_receive ==> values.auto_receive == "1"@
    &&& !settings.auto_receive ==> values.auto_receive == "0"@
}

impl SettingsText {
    /// The settings that the values say, given what the texts of the two endpoints stand for.
    pub fn resolve(&self, local: Option<Endpoint>, peer: Option<Endpoint>) -> (result: Result<
        AppSettings,
        Failure,
    >)
        ensures
            match result {
                Err(failure) => if parsed_endpoint(local) is Err {
                    failure == parsed_endpoint(local)->Err_0
                } else if security::fingerprint_bytes(self@.active_peer) is None {
                    failure == Failure::invalid(
                        "certificate fingerprint must contain exactly 32 hexadecimal bytes",
                    )
                } else if parsed_endpoint(peer) is Err {
                    failure == parsed_endpoint(peer)->Err_0
                } else {
                    self@.auto_receive != "0"@ && self@.auto_receive != "1"@ && failure
                        == Failure::invalid("auto_receive must be 0 or 1")
                },
                Ok(settings) => says(self@, local, peer, settings),
            },
    {
        let local_endpoint = match check_parsed(local) {
            Err(failure) => {
                return Err(failure);
            },
            Ok(endpoint) => endpoint,
        };
        let active_peer = match CertificateFingerprint::parse(self.active_peer.as_str()) {
            Err(failure) => {
                return Err(failure);
            },
            Ok(fingerprint) => fingerprint,
        };
        let peer_endpoint = match check_parsed(peer) {
            Err(failure) => {
                return Err(failure);
            },
            Ok(endpoint) => endpoint,
        };
        let auto_receive = if text::same_text(self.auto_receive.as_str(), "0") {
            false
        } else if text::same_text(self.auto_receive.as_str(), "1") {
            true
        } else {
            return Err(Failure::invalid("auto_receive must be 0 or 1"));
        };
        Ok(AppSettings { local_endpoint, active_peer, peer_endpoint, auto_receive })
    }
}

/// A settings file with the given values.
pub open spec fn settings_file(values: SettingsView) -> Seq<char> {
    SETTINGS_HEADER@ + "\nlocal_endpoint="@ + values.local_endpoint + "\nactive_peer="@
        + values.active_peer + "\npeer_endpoint="@ + values.peer_endpoint + "\nauto_receive="@
        + values.auto_receive + "\n"@
}

impl AppSettings {
    /// The values by which a file tells the settings, given the texts of the two endpoints.
    pub open spec fn told(&self, local_text: Seq<char>, peer_text: Seq<char>) -> SettingsView {
        SettingsView {
            local_endpoint: local_text,
            active_peer: security::fingerprint_text(self.active_peer.0@),
            peer_endpoint: peer_text,
            auto_receive: if self.auto_receive {
                "1"@
            } else {
                "0"@
            },
        }
    }

    /// Writes a settings file, given the texts of the two endpoints.
    pub fn encode(&self, local_text: &str, peer_text: &str) -> (file: String)
        ensures
            file@ == settings_file(self.told(local_text@, peer_text@)),
    {
        let mut file = String::new();
        text::push_text(&mut file, SETTINGS_HEADER);
        text::push_text(&mut file, "\nlocal_endpoint=");
        text::push_text(&mut file, local_text);
        text::push_text(&mut file, "\nactive_peer=");
        let fingerprint = self.active_peer.to_text();
        text::push_text(&mut file, fingerprint.as_str());
        text::push_text(&mut file, "\npeer_endpoint=");
        text::push_text(&mut file, peer_text);
        text::push_text(&mut file, "\nauto_receive=");
        if self.auto_receive {
            text::push_text(&mut file, "1");
        } else {
            text::push_text(&mut file, "0");
        }
        text::push_text(&mut file, "\n");
        assert(file@ =~= settings_file(self.told(local_text@, peer_text@)));
        file
    }

    /// Why the endpoints of settings are refused.
    pub open spec fn endpoints_outcome(self) -> Result<(), Failure> {
        if endpoint_outcome(self.local_endpoint) is Err {
            endpoint_outcome(self.local_endpoint)
        } else if endpoint_outcome(self.peer_endpoint) is Err {
            endpoint_outcome(self.peer_endpoint)
        } else if self.local_endpoint.ip.spec_loopback() != self.peer_endpoint.ip.spec_loopback() {
            Err(
                Failure::invalid(
                    "local and peer endpoints must both be loopback or both be private LAN addresses",
                ),
            )
        } else {
            Ok(())
        }
    }

    /// Checks the endpoints of settings.
    pub fn validate(&self) -> (result: Result<(), Failure>)
        ensures
            result == self.endpoints_outcome(),
    {
        match validate_private_endpoint(self.local_endpoint) {
            Err(failure) => {
                return Err(failure);
            },
            Ok(_) => {},
        }
        match validate_private_endpoint(self.peer_endpoint) {
            Err(failure) => {
                return Err(failure);
            },
            Ok(_) => {},
        }
        if self.local_endpoint.ip.is_loopback() != self.peer_endpoint.ip.is_loopback() {
            return Err(
                Failure::invalid(
                    "local and peer endpoints must both be loopback or both be private LAN addresses",
                ),
            );
        }
        Ok(())
    }

    /// Checks that the record of the selected peer is its own.
    pub fn check_peer(&self, recorded: CertificateFingerprint) -> (result: Result<(), Failure>)
        ensures
            result == if recorded == self.active_peer {
                Ok::<(), Failure>(())
            } else {
                Err(Failure::invalid("active peer record does not match its fingerprint"))
            },
    {
        if recorded != self.active_peer {
            return Err(Failure::invalid("active peer record does not match its fingerprint"));
        }
        Ok(())
    }

    /// Whether two settings are the same.
    pub fn same(&self, other: &AppSettings) -> (same: bool)
        ensures
            same == (*self == *other),
    {
        self.local_endpoint == other.local_endpoint && self.active_peer == other.active_peer
            && self.peer_endpoint == other.peer_endpoint && self.auto_receive
            == other.auto_receive
    }
}

/// Whether a text stays on its line.
pub open spec fn one_line(text: Seq<char>) -> bool {
    forall|k: int| 0 <= k < text.len() ==> #[trigger] text[k] != '\n' && text[k] != '\r'
}

proof fn lemma_line_before(line: Seq<char>, rest: Seq<char>)
    requires
        one_line(line),
    ensures
        lines(line.push('\n') + rest) == seq![line] + lines(rest),
{
    let text = line.push('\n') + rest;
    text::lemma_position_is(text, '\n', line.len() as int);
    assert(text.take(line.len() as int) =~= line);
    assert(text.skip(line.len() as int + 1) =~= rest);
    if line.len() > 0 {
        assert(line.last() != '\r');
    }
}

proof fn lemma_field_line(key: Seq<char>, value: Seq<char>)
    requires
        one_line(key),
        one_line(value),
        forall|k: int| 0 <= k < key.len() ==> #[trigger] key[k] != '=',
    ensures
        ({
            let line = key.push('=') + value;
            &&& one_line(line)
            &&& text::position(line, '=') == key.len()
            &&& line.take(key.len() as int) == key
            &&& line.skip(key.len() as int + 1) == value
            &&& line.len() > key.len()
        }),
{
    let line = key.push('=') + value;
    assert forall|k: int| 0 <= k < line.len() implies #[trigger] line[k] != '\n' && line[k]
        != '\r' by {
        if k > key.len() {
            assert(line[k] == value[k - key.len() - 1]);
        }
    }
    text::lemma_position_is(line, '=', key.len() as int);
    assert(line.take(key.len() as int) =~= key);
    assert(line.skip(key.len() as int + 1) =~= value);
}

/// The line by which a file tells a value.
spec fn field_line(key: Seq<char>, value: Seq<char>) -> Seq<char> {
    key.push('=') + value
}

proof fn lemma_keys_are_plain()
    ensures
        ({
            let (k1, k2, k3, k4) = (
                "local_endpoint"@,
                "active_peer"@,
                "peer_endpoint"@,
                "auto_receive"@,
            );
            &&& one_line(k1) && one_line(k2) && one_line(k3) && one_line(k4)
            &&& forall|k: int| 0 <= k < k1.len() ==> #[trigger] k1[k] != '='
            &&& forall|k: int| 0 <= k < k2.len() ==> #[trigger] k2[k] != '='
            &&& forall|k: int| 0 <= k < k3.len() ==> #[trigger] k3[k] != '='
            &&& forall|k: int| 0 <= k < k4.len() ==> #[trigger] k4[k] != '='
            &&& k1.len() == 14 && k2.len() == 11 && k3.len() == 13 && k4.len() == 12
        }),
{
    reveal_strlit("local_endpoint");
    reveal_strlit("active_peer");
    reveal_strlit("peer_endpoint");
    reveal_strlit("auto_receive");
}

proof fn lemma_file_lines(values: SettingsView)
    requires
        one_line(values.local_endpoint),
        one_line(values.active_peer),
        one_line(values.peer_endpoint),
        one_line(values.auto_receive),
    ensures
        lines(settings_file(values)) == seq![
            SETTINGS_HEADER@,
            field_line("local_endpoint"@, values.local_endpoint),
            field_line("active_peer"@, values.active_peer),
            field_line("peer_endpoint"@, values.peer_endpoint),
            field_line("auto_receive"@, values.auto_receive),
        ],
{
    let l1 = field_line("local_endpoint"@, values.local_endpoint);
    let l2 = field_line("active_peer"@, values.active_peer);
    let l3 = field_line("peer_endpoint"@, values.peer_endpoint);
    let l4 = field_line("auto_receive"@, values.auto_receive);
    let header = SETTINGS_HEADER@;
    let none = Seq::<char>::empty();
    let t4 = l4.push('\n') + none;
    let t3 = l3.push('\n') + t4;
    let t2 = l2.push('\n') + t3;
    let t1 = l1.push('\n') + t2;
    let file = header.push('\n') + t1;
    assert(one_line(header)) by {
        reveal_strlit("ClipFerrySettingsV1");
    }
    assert(file =~= settings_file(values)) by {
        reveal_strlit("\nlocal_endpoint=");
        reveal_strlit("\nactive_peer=");
        reveal_strlit("\npeer_endpoint=");
        reveal_strlit("\nauto_receive=");
        reveal_strlit("\n");
        reveal_strlit("local_endpoint");
        reveal_strlit("active_peer");
        reveal_strlit("peer_endpoint");
        reveal_strlit("auto_receive");
        assert("\nlocal_endpoint="@ =~= seq!['\n'] + "local_endpoint"@.push('='));
        assert("\nactive_peer="@ =~= seq!['\n'] + "active_peer"@.push('='));
        assert("\npeer_endpoint="@ =~= seq!['\n'] + "peer_endpoint"@.push('='));
        assert("\nauto_receive="@ =~= seq!['\n'] + "auto_receive"@.push('='));
        assert("\n"@ =~= seq!['\n']);
    }
    lemma_keys_are_plain();
    lemma_field_line("local_endpoint"@, values.local_endpoint);
    lemma_field_line("active_peer"@, values.active_peer);
    lemma_field_line("peer_endpoint"@, values.peer_endpoint);
    lemma_field_line("auto_receive"@, values.auto_receive);
    lemma_line_before(header, t1);
    lemma_line_before(l1, t2);
    lemma_line_before(l2, t3);
    lemma_line_before(l3, t4);
    lemma_line_before(l4, none);
    assert(lines(none) =~= Seq::<Seq<char>>::empty());
    assert(lines(file) =~= seq![header, l1, l2, l3, l4]);
}

proof fn lemma_first_of_lines(fields: FieldsView, line: Seq<char>, rest: Seq<Seq<char>>)
    ensures
        fields.with_lines(seq![line] + rest) == (match fields.with_line(line) {
            Err(failure) => Err::<FieldsView, Failure>(failure),
            Ok(next) => next.with_lines(rest),
        }),
{
    assert((seq![line] + rest).skip(1) =~= rest);
}

/// Reading a settings file gives the values that were written into it, whatever they are, as
/// long as each stays on its line.
pub proof fn lemma_settings_file_round_trip(values: SettingsView)
    requires
        one_line(values.local_endpoint),
        one_line(values.active_peer),
        one_line(values.peer_endpoint),
        one_line(values.auto_receive),
    ensures
        settings_outcome(settings_file(values)) == Ok::<SettingsView, Failure>(values),
{
    lemma_file_lines(values);
    lemma_keys_are_plain();
    lemma_field_line("local_endpoint"@, values.local_endpoint);
    lemma_field_line("active_peer"@, values.active_peer);
    lemma_field_line("peer_endpoint"@, values.peer_endpoint);
    lemma_field_line("auto_receive"@, values.auto_receive);
    let l1 = field_line("local_endpoint"@, values.local_endpoint);
    let l2 = field_line("active_peer"@, values.active_peer);
    let l3 = field_line("peer_endpoint"@, values.peer_endpoint);
    let l4 = field_line("auto_receive"@, values.auto_receive);
    let f0 = FieldsView::none();
    let f1 = FieldsView { local_endpoint: Some(values.local_endpoint), ..f0 };
    let f2 = FieldsView { active_peer: Some(values.active_peer), ..f1 };
    let f3 = FieldsView { peer_endpoint: Some(values.peer_endpoint), ..f2 };
    let f4 = FieldsView { auto_receive: Some(values.auto_receive), ..f3 };
    assert(f0.with_line(l1) == Ok::<FieldsView, Failure>(f1));
    assert(f1.with_line(l2) == Ok::<FieldsView, Failure>(f2));
    assert(f2.with_line(l3) == Ok::<FieldsView, Failure>(f3));
    assert(f3.with_line(l4) == Ok::<FieldsView, Failure>(f4));
    let none = Seq::<Seq<char>>::empty();
    let s4 = seq![l4] + none;
    let s3 = seq![l3] + s4;
    let s2 = seq![l2] + s3;
    let s1 = seq![l1] + s2;
    lemma_first_of_lines(f0, l1, s2);
    lemma_first_of_lines(f1, l2, s3);
    lemma_first_of_lines(f2, l3, s4);
    lemma_first_of_lines(f3, l4, none);
    assert(lines(settings_file(values)).skip(1) =~= s1);
}

/// The text of a fingerprint stays on its line.
proof fn lemma_fingerprint_is_one_line(bytes: Seq<u8>)
    ensures
        one_line(security::fingerprint_text(bytes)),
    decreases bytes.len(),
{
    let text = security::fingerprint_text(bytes);
    if bytes.len() > 1 {
        let rest = security::fingerprint_text(bytes.drop_last());
        lemma_fingerprint_is_one_line(bytes.drop_last());
        assert forall|k: int| 0 <= k < text.len() implies #[trigger] text[k] != '\n' && text[k]
            != '\r' by {
            if k < rest.len() {
                assert(text[k] == rest[k]);
            }
        }
    }
}

/// Settings that were saved load as they were, and as nothing else: their file reads back, and
/// its values say exactly these settings where the texts of the endpoints stand for the
/// endpoints. The texts must stay on their lines.
pub proof fn lemma_settings_round_trip(
    settings: AppSettings,
    local_text: Seq<char>,
    peer_text: Seq<char>,
    loaded: AppSettings,
)
    requires
        settings.endpoints_outcome() is Ok,
        one_line(local_text),
        one_line(peer_text),
    ensures
        ({
            let values = settings.told(local_text, peer_text);
            &&& settings_outcome(settings_file(values)) == Ok::<SettingsView, Failure>(values)
            &&& says(
                values,
                Some(settings.local_endpoint),
                Some(settings.peer_endpoint),
                loaded,
            ) <==> loaded == settings
        }),
{
    reveal_strlit("0");
    reveal_strlit("1");
    assert("0"@[0] != "1"@[0]);
    lemma_fingerprint_is_one_line(settings.active_peer.0@);
    security::lemma_fingerprint_round_trip(settings.active_peer.0@);
    lemma_settings_file_round_trip(settings.told(local_text, peer_text));
    if loaded.active_peer.0@ == settings.active_peer.0@ {
        assert(loaded.active_peer.0 =~= settings.active_peer.0);
    }
}

} // verus!
