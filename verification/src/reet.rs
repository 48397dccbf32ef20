//! The reconciler: what the configuration asks for, record by record, and
//! the decisions that bring the provider's records to it.

use crate::cloudflare::{header_text, Cloudflare, CloudflareView};
use crate::config::{read, stem, Config, ConfigView};
use crate::dns::RecordType;
use crate::ip::IpAddress;
use crate::text::drop_suffix;
use crate::tick::{Action, Event, Tick, TickView};
use vstd::prelude::*;
use vstd::string::*;

verus! {

/// The time to live that an update carries where the configuration names
/// none. The provider reads it as "automatic".
pub const DEFAULT_TTL: u32 = 1;

/// Why a group of the configuration gives no desired record.
#[derive(Clone, Copy, Debug, PartialEq, Eq, Structural)]
pub enum ConfigErrorKind {
    /// The group has a name and no record type.
    MissingType,
    /// The group's record type is the name of no record type.
    InvalidType,
    /// The group's address is no IP address.
    InvalidIp,
    /// The group's time to live is no unsigned number of 32 bits.
    InvalidTtl,
    /// The group's proxy flag is neither `true` nor `false`.
    InvalidProxied,
}

/// A group of the configuration that gives no desired record.
#[derive(Debug, PartialEq, Eq)]
pub struct ConfigError {
    pub group: String,
    pub kind: ConfigErrorKind,
}

/// What a configuration error holds.
pub struct ConfigErrorView {
    pub group: Seq<char>,
    pub kind: ConfigErrorKind,
}

impl View for ConfigError {
    type V = ConfigErrorView;

    open spec fn view(&self) -> ConfigErrorView {
        ConfigErrorView { group: self.group@, kind: self.kind }
    }
}

/// The state that the configuration asks for one DNS name.
#[derive(Debug, PartialEq, Eq)]
pub struct DesiredRecord {
    pub group_name: String,
    pub dns_name: String,
    pub record_type: RecordType,
    pub explicit_ip: Option<IpAddress>,
    pub ttl: Option<u32>,
    pub proxied: Option<bool>,
}

/// What a desired record holds.
pub struct DesiredRecordView {
    pub group_name: Seq<char>,
    pub dns_name: Seq<char>,
    pub record_type: RecordType,
    pub explicit_ip: Option<IpAddress>,
    pub ttl: Option<u32>,
    pub proxied: Option<bool>,
}

impl View for DesiredRecord {
    type V = DesiredRecordView;

    open spec fn view(&self) -> DesiredRecordView {
        DesiredRecordView {
            group_name: self.group_name@,
            dns_name: self.dns_name@,
            record_type: self.record_type,
            explicit_ip: self.explicit_ip,
            ttl: self.ttl,
            proxied: self.proxied,
        }
    }
}

/// One group of the configuration: the record it asks for, or why it asks
/// for none.
pub type Group = Result<DesiredRecord, ConfigError>;

/// What a group holds.
pub type GroupView = Result<DesiredRecordView, ConfigErrorView>;

/// What a group holds.
pub open spec fn group_view(g: Group) -> GroupView {
    match g {
        Ok(r) => Ok(r@),
        Err(e) => Err(e@),
    }
}

/// What a list of groups holds.
pub open spec fn groups_view(groups: Seq<Group>) -> Seq<GroupView> {
    groups.map_values(|g: Group| group_view(g))
}

/// What the group of the `_NAME` variable `entry` asks for. The group's
/// record type is required; its address, time to live and proxy flag may be
/// absent, and none of the four may be malformed. The first of them that is
/// at fault, in that order, is the one reported.
pub open spec fn desired(config: ConfigView, entry: (Seq<char>, Seq<char>)) -> GroupView {
    let name = entry.0;
    let fault = |kind: ConfigErrorKind| Err::<DesiredRecordView, ConfigErrorView>(
        ConfigErrorView { group: stem(name), kind },
    );
    match config.find_type(name) {
        None => fault(ConfigErrorKind::MissingType),
        Some(None) => fault(ConfigErrorKind::InvalidType),
        Some(Some(record_type)) => {
            if config.find_ip(name) == Some(None::<IpAddress>) {
                fault(ConfigErrorKind::InvalidIp)
            } else if config.find_ttl(name) == Some(None::<u32>) {
                fault(ConfigErrorKind::InvalidTtl)
            } else if config.find_proxied(name) == Some(None::<bool>) {
                fault(ConfigErrorKind::InvalidProxied)
            } else {
                Ok(
                    DesiredRecordView {
                        group_name: stem(name),
                        dns_name: entry.1,
                        record_type,
                        explicit_ip: read(config.find_ip(name)),
                        ttl: read(config.find_ttl(name)),
                        proxied: read(config.find_proxied(name)),
                    },
                )
            }
        },
    }
}

/// What the configuration asks for: one group for each `_NAME` variable, in
/// the order of the snapshot.
pub open spec fn desired_records(config: ConfigView) -> Seq<GroupView> {
    config.names().map_values(|entry: (Seq<char>, Seq<char>)| desired(config, entry))
}

/// Why the reconciler cannot be started.
#[derive(Clone, Copy, Debug, PartialEq, Eq, Structural)]
pub enum StartupError {
    /// The configuration lacks the API key or the e-mail address that goes
    /// with it.
    MissingCredentials,
    /// The configuration lacks the zone id.
    MissingZoneId,
    /// The API key or the e-mail address cannot be sent as a header value.
    InvalidCredentials,
    /// No group of the configuration gives a desired record.
    NoValidRecord,
}

/// What keeps the reconciler from being started on `config`, if anything:
/// first the credentials are looked for, then the zone id; then the
/// credentials are held to what a header value may be; then a group that
/// gives a desired record is looked for.
pub open spec fn startup_fault(config: ConfigView) -> Option<StartupError> {
    if config.cloudflare_api_key() is None || config.cloudflare_email() is None {
        Some(StartupError::MissingCredentials)
    } else if config.zone_id() is None {
        Some(StartupError::MissingZoneId)
    } else if !header_text(config.cloudflare_email()->Some_0) || !header_text(
        config.cloudflare_api_key()->Some_0,
    ) {
        Some(StartupError::InvalidCredentials)
    } else if forall|i: int|
        0 <= i < desired_records(config).len() ==> (#[trigger] desired_records(config)[i]) is Err {
        Some(StartupError::NoValidRecord)
    } else {
        None
    }
}

/// The reconciler of one zone.
#[derive(Debug)]
pub struct Reet {
    config: Config,
    cloudflare: Cloudflare,
}

/// What a reconciler holds.
pub struct ReetView {
    pub config: ConfigView,
    pub cloudflare: CloudflareView,
}

impl View for Reet {
    type V = ReetView;

    closed spec fn view(&self) -> ReetView {
        ReetView { config: self.config@, cloudflare: self.cloudflare@ }
    }
}

impl Reet {
    pub fn new(config: Config, cloudflare: Cloudflare) -> (r: Reet)
        ensures
            r@ == (ReetView { config: config@, cloudflare: cloudflare@ }),
    {
        Reet { config, cloudflare }
    }

    /// The reconciler that `config` describes: its zone and credentials are
    /// the configuration's. It is refused where the configuration lacks one
    /// of them, or holds no group that gives a desired record.
    #[verifier::loop_isolation(false)]
    pub fn startup(config: Config) -> (r: Result<Reet, StartupError>)
        ensures
            match r {
                Ok(reet) => {
                    &&& startup_fault(config@) is None
                    &&& reet@.config == config@
                    &&& Some(reet@.cloudflare.email) == config@.cloudflare_email()
                    &&& Some(reet@.cloudflare.key) == config@.cloudflare_api_key()
                    &&& Some(reet@.cloudflare.zone_id) == config@.zone_id()
                },
                Err(e) => startup_fault(config@) == Some(e),
            },
    {
        let key = match config.cloudflare_api_key() {
            Some(key) => key,
            None => {
                return Err(StartupError::MissingCredentials);
            },
        };
        let email = match config.cloudflare_email() {
            Some(email) => email,
            None => {
                return Err(StartupError::MissingCredentials);
            },
        };
        let zone_id = match config.zone_id() {
            Some(zone_id) => zone_id,
            None => {
                return Err(StartupError::MissingZoneId);
            },
        };
        let cloudflare = match Cloudflare::new(email.as_str(), key.as_str(), zone_id.as_str()) {
            Ok(cloudflare) => cloudflare,
            Err(_) => {
                return Err(StartupError::InvalidCredentials);
            },
        };
        let reet = Reet::new(config, cloudflare);
        let groups = reet.parse_records();
        let mut i: usize = 0;
        while i < groups.len()
            invariant
                i <= groups.len(),
                forall|j: int| 0 <= j < i ==> (#[trigger] groups@[j]) is Err,
            decreases groups.len() - i,
        {
            if groups[i].is_ok() {
                assert(groups_view(groups@)[i as int] == group_view(groups@[i as int]));
                return Ok(reet);
            }
            i += 1;
        }
        assert forall|j: int| 0 <= j < desired_records(config@).len() implies (
        #[trigger] desired_records(config@)[j]) is Err by {
            assert(groups_view(groups@)[j] == group_view(groups@[j]));
        }
        Err(StartupError::NoValidRecord)
    }

    /// The configuration that the reconciler reads.
    pub fn config(&self) -> (r: &Config)
        ensures
            r@ == self@.config,
    {
        &self.config
    }

    /// The provider's API that the reconciler speaks to.
    pub fn cloudflare(&self) -> (r: &Cloudflare)
        ensures
            r@ == self@.cloudflare,
    {
        &self.cloudflare
    }

    /// The tick that starts on what the configuration asks for.
    pub fn begin(&self) -> (tick: Tick)
        ensures
            tick@ == TickView::start(desired_records(self@.config)),
            tick@.wf(),
    {
        Tick::start(self.parse_records())
    }

    /// The outside work that `tick` waits for.
    pub fn pending(&self, tick: &Tick) -> (action: Action)
        ensures
            action@ == tick@.pending(self@.cloudflare.zone_id),
    {
        tick.pending(&self.cloudflare)
    }

    /// Takes `tick` on by `event`, the answer to the outside work that it
    /// waited for, and says what it waits for next.
    pub fn update(&self, tick: Tick, event: Event) -> (r: (Tick, Action))
        ensures
            r.0@ == tick@.step(event@),
            r.0@.wf(),
            r.1@ == r.0@.pending(self@.cloudflare.zone_id),
    {
        let next = tick.step(event);
        let action = next.pending(&self.cloudflare);
        (next, action)
    }

    /// What the group of one `_NAME` variable asks for.
    fn parse_record(&self, name: &str, value: &str) -> (g: Group)
        ensures
            group_view(g) == desired(self@.config, (name@, value@)),
    {
        let group = drop_suffix(name, "_NAME");
        let record_type = match self.config.find_type(name) {
            None => {
                return Err(
                    ConfigError {
                        group: String::from_str(group),
                        kind: ConfigErrorKind::MissingType,
                    },
                );
            },
            Some(None) => {
                return Err(
                    ConfigError {
                        group: String::from_str(group),
                        kind: ConfigErrorKind::InvalidType,
                    },
                );
            },
            Some(Some(t)) => t,
        };
        let explicit_ip = match self.config.find_ip(name) {
            Some(None) => {
                return Err(
                    ConfigError { group: String::from_str(group), kind: ConfigErrorKind::InvalidIp },
                );
            },
            Some(Some(ip)) => Some(ip),
            None => None,
        };
        let ttl = match self.config.find_ttl(name) {
            Some(None) => {
                return Err(
                    ConfigError {
                        group: String::from_str(group),
                        kind: ConfigErrorKind::InvalidTtl,
                    },
                );
            },
            Some(Some(t)) => Some(t),
            None => None,
        };
        let proxied = match self.config.find_proxied(name) {
            Some(None) => {
                return Err(
                    ConfigError {
                        group: String::from_str(group),
                        kind: ConfigErrorKind::InvalidProxied,
                    },
                );
            },
            Some(Some(p)) => Some(p),
            None => None,
        };
        Ok(
            DesiredRecord {
                group_name: String::from_str(group),
                dns_name: String::from_str(value),
                record_type,
                explicit_ip,
                ttl,
                proxied,
            },
        )
    }

    /// Reads the configuration into its groups: one for each `_NAME`
    /// variable, in the order of the snapshot.
    pub fn parse_records(&self) -> (groups: Vec<Group>)
        ensures
            groups_view(groups@) == desired_records(self@.config),
    {
        let names = self.config.names();
        let mut groups: Vec<Group> = Vec::new();
        let mut i: usize = 0;
        while i < names.len()
            invariant
                i <= names.len(),
                groups.len() == i,
                names.deep_view() == self@.config.names(),
                forall|j: int|
                    0 <= j < i ==> group_view(#[trigger] groups@[j]) == desired(
                        self@.config,
                        names.deep_view()[j],
                    ),
            decreases names.len() - i,
        {
            let group = self.parse_record(names[i].0.as_str(), names[i].1.as_str());
            assert(names.deep_view()[i as int] == (names@[i as int].0@, names@[i as int].1@));
            groups.push(group);
            i += 1;
        }
        assert(groups_view(groups@) =~= desired_records(self@.config));
        groups
    }
}

} // verus!
