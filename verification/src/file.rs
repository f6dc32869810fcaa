//! The declarations that a configuration holds: the entry file with its
//! networks and service directories, and one declaration per service.
//!
//! These are plain data. Each type has a view (`deep_view`) that is its
//! mathematical value, and the equality functions here decide equality of
//! views: two declarations are equal exactly if they say the same.

use crate::keyed::{
    is_keyed, keyed_view, keys_rise, lemma_one_map_has_one_list, lemma_the_keys_decide, map_of,
};
use vstd::prelude::*;

verus! {

/// Seconds between two polls for a new image where the entry file names none.
pub fn default_delay() -> (r: u64)
    ensures
        r == 60,
{
    60
}

pub fn default_network_driver() -> (r: NetworkDriver)
    ensures
        r == NetworkDriver::Bridge,
{
    NetworkDriver::Bridge
}

pub fn default_false() -> (r: bool)
    ensures
        !r,
{
    false
}

pub fn default_true() -> (r: bool)
    ensures
        r,
{
    true
}

/// When a service is first started.
#[derive(Debug, Clone, Copy, PartialEq, Eq, Structural)]
pub enum Initialize {
    /// As soon as the manager starts.
    Immediately,
    /// Only when a trigger fires: the cron schedule or a new image.
    OnTrigger,
}

impl Default for Initialize {
    fn default() -> (r: Initialize)
        ensures
            r == Initialize::Immediately,
    {
        Initialize::Immediately
    }
}

/// When the image of a service is pulled.
#[derive(Debug, Clone, Copy, PartialEq, Eq, Structural)]
pub enum PullPolicy {
    /// Before every run.
    Always,
    /// Only when the container has to be created.
    OnStartup,
}

impl Default for PullPolicy {
    fn default() -> (r: PullPolicy)
        ensures
            r == PullPolicy::OnStartup,
    {
        PullPolicy::OnStartup
    }
}

/// What a service waits for in a peer before it starts.
#[derive(Debug, Clone, Copy, PartialEq, Eq, Structural)]
pub enum DependsOnCondition {
    /// The peer is running.
    ServiceStarted,
    /// The peer has exited with code 0.
    ServiceCompleted,
    /// The peer is running and healthy, or running without a health check.
    ServiceHealthy,
}

/// The restart policy that the runtime applies to a container.
#[derive(Debug, Clone, Copy, PartialEq, Eq, Structural)]
pub enum Restart {
    Always,
    No,
    OnFailure,
    UnlessStopped,
}

impl Default for Restart {
    fn default() -> (r: Restart)
        ensures
            r == Restart::No,
    {
        Restart::No
    }
}

impl Restart {
    /// The policy's name as the runtime spells it.
    pub fn as_str(&self) -> (r: &'static str)
        ensures
            r@ == restart_name(*self),
    {
        match self {
            Restart::Always => "always",
            Restart::No => "no",
            Restart::OnFailure => "on-failure",
            Restart::UnlessStopped => "unless-stopped",
        }
    }
}

pub open spec fn restart_name(r: Restart) -> Seq<char> {
    match r {
        Restart::Always => "always"@,
        Restart::No => "no"@,
        Restart::OnFailure => "on-failure"@,
        Restart::UnlessStopped => "unless-stopped"@,
    }
}

#[derive(Debug, Clone, Copy, PartialEq, Eq, Structural)]
pub enum NetworkDriver {
    Bridge,
    Host,
    Overlay,
    Macvlan,
    /// No networking at all; the runtime calls this driver "none".
    Null,
}

impl Default for NetworkDriver {
    fn default() -> (r: NetworkDriver)
        ensures
            r == NetworkDriver::Bridge,
    {
        NetworkDriver::Bridge
    }
}

impl NetworkDriver {
    /// The driver's name as the runtime spells it.
    pub fn as_str(&self) -> (r: &'static str)
        ensures
            r@ == driver_name(*self),
    {
        match self {
            NetworkDriver::Bridge => "bridge",
            NetworkDriver::Host => "host",
            NetworkDriver::Overlay => "overlay",
            NetworkDriver::Macvlan => "macvlan",
            NetworkDriver::Null => "none",
        }
    }
}

pub open spec fn driver_name(d: NetworkDriver) -> Seq<char> {
    match d {
        NetworkDriver::Bridge => "bridge"@,
        NetworkDriver::Host => "host"@,
        NetworkDriver::Overlay => "overlay"@,
        NetworkDriver::Macvlan => "macvlan"@,
        NetworkDriver::Null => "none"@,
    }
}

/// Which listeners the proxy opens.
#[derive(Debug, Clone, Copy, PartialEq, Eq, Structural)]
pub enum ProxyStrategy {
    /// Plain HTTP on port 80 only.
    HttpOnly,
    /// TLS on port 443; port 80 only redirects and answers challenges.
    HttpsOnly,
    /// Both ports serve.
    Both,
}

impl Default for ProxyStrategy {
    fn default() -> (r: ProxyStrategy)
        ensures
            r == ProxyStrategy::HttpsOnly,
    {
        ProxyStrategy::HttpsOnly
    }
}

/// One published port: `host` on the machine leads to `container` inside.
#[derive(Debug, Clone, Copy, PartialEq, Eq, Structural)]
pub struct PortEntry {
    pub host: u16,
    pub container: u16,
}

/// One mount. `source` is a volume name or a path.
#[derive(Debug, Clone, PartialEq, Eq)]
pub struct VolumeEntry {
    pub source: String,
    pub target: String,
    pub readonly: bool,
}

pub struct VolumeEntryView {
    pub source: Seq<char>,
    pub target: Seq<char>,
    pub readonly: bool,
}

impl DeepView for VolumeEntry {
    type V = VolumeEntryView;

    open spec fn deep_view(&self) -> VolumeEntryView {
        VolumeEntryView { source: self.source@, target: self.target@, readonly: self.readonly }
    }
}

/// A network, beyond the default one, that a service is attached to.
#[derive(Debug, Clone, PartialEq, Eq)]
pub struct Network {
    pub name: String,
}

impl DeepView for Network {
    type V = Seq<char>;

    open spec fn deep_view(&self) -> Seq<char> {
        self.name@
    }
}

/// The container of a service: what runs, and as what.
#[derive(Debug, Clone, PartialEq, Eq)]
pub struct ServiceEntry {
    pub name: String,
    pub image: String,
    pub command: Option<Vec<String>>,
    pub entrypoint: Option<Vec<String>>,
    pub working_dir: Option<String>,
    pub user: Option<String>,
    pub hostname: Option<String>,
    /// Memory limit, such as "512m" or "2g".
    pub memory: Option<String>,
    /// Number of CPUs, such as "1.5" or "2".
    pub cpus: Option<String>,
}

pub struct ServiceEntryView {
    pub name: Seq<char>,
    pub image: Seq<char>,
    pub command: Option<Seq<Seq<char>>>,
    pub entrypoint: Option<Seq<Seq<char>>>,
    pub working_dir: Option<Seq<char>>,
    pub user: Option<Seq<char>>,
    pub hostname: Option<Seq<char>>,
    pub memory: Option<Seq<char>>,
    pub cpus: Option<Seq<char>>,
}

impl DeepView for ServiceEntry {
    type V = ServiceEntryView;

    open spec fn deep_view(&self) -> ServiceEntryView {
        ServiceEntryView {
            name: self.name@,
            image: self.image@,
            command: self.command.deep_view(),
            entrypoint: self.entrypoint.deep_view(),
            working_dir: self.working_dir.deep_view(),
            user: self.user.deep_view(),
            hostname: self.hostname.deep_view(),
            memory: self.memory.deep_view(),
            cpus: self.cpus.deep_view(),
        }
    }
}

/// How the manager treats a service. `cron` is the text of a schedule.
#[derive(Debug, Clone, PartialEq, Eq)]
pub struct DispenserConfig {
    pub watch: bool,
    pub initialize: Initialize,
    pub cron: Option<String>,
    pub pull: PullPolicy,
}

pub struct DispenserConfigView {
    pub watch: bool,
    pub initialize: Initialize,
    pub cron: Option<Seq<char>>,
    pub pull: PullPolicy,
}

impl DeepView for DispenserConfig {
    type V = DispenserConfigView;

    open spec fn deep_view(&self) -> DispenserConfigView {
        DispenserConfigView {
            watch: self.watch,
            initialize: self.initialize,
            cron: self.cron.deep_view(),
            pull: self.pull,
        }
    }
}

/// How the proxy exposes a service. With both `cert_file` and `key_file`
/// the operator supplies the certificate; else the manager obtains one.
#[derive(Debug, Clone, PartialEq, Eq)]
pub struct ProxySettings {
    pub host: String,
    pub path: Option<String>,
    pub service_port: u16,
    pub cert_file: Option<String>,
    pub key_file: Option<String>,
}

pub struct ProxySettingsView {
    pub host: Seq<char>,
    pub path: Option<Seq<char>>,
    pub service_port: u16,
    pub cert_file: Option<Seq<char>>,
    pub key_file: Option<Seq<char>>,
}

impl DeepView for ProxySettings {
    type V = ProxySettingsView;

    open spec fn deep_view(&self) -> ProxySettingsView {
        ProxySettingsView {
            host: self.host@,
            path: self.path.deep_view(),
            service_port: self.service_port,
            cert_file: self.cert_file.deep_view(),
            key_file: self.key_file.deep_view(),
        }
    }
}

/// The declaration of one service. `env` and `depends_on` are maps, held
/// as lists of pairs in the order of their keys.
#[derive(Debug, Clone, PartialEq, Eq)]
pub struct ServiceFile {
    pub service: ServiceEntry,
    pub ports: Vec<PortEntry>,
    pub volume: Vec<VolumeEntry>,
    pub env: Vec<(String, String)>,
    pub restart: Restart,
    pub network: Vec<Network>,
    pub dispenser: DispenserConfig,
    pub depends_on: Vec<(String, DependsOnCondition)>,
    pub proxy: Option<ProxySettings>,
}

pub struct ServiceFileView {
    pub service: ServiceEntryView,
    pub ports: Seq<PortEntry>,
    pub volume: Seq<VolumeEntryView>,
    pub env: Seq<(Seq<char>, Seq<char>)>,
    pub restart: Restart,
    pub network: Seq<Seq<char>>,
    pub dispenser: DispenserConfigView,
    pub depends_on: Seq<(Seq<char>, DependsOnCondition)>,
    pub proxy: Option<ProxySettingsView>,
}

impl DeepView for ServiceFile {
    type V = ServiceFileView;

    open spec fn deep_view(&self) -> ServiceFileView {
        ServiceFileView {
            service: self.service.deep_view(),
            ports: self.ports@,
            volume: self.volume.deep_view(),
            env: pairs_view(self.env@),
            restart: self.restart,
            network: self.network.deep_view(),
            dispenser: self.dispenser.deep_view(),
            depends_on: depends_view(self.depends_on@),
            proxy: self.proxy.deep_view(),
        }
    }
}

/// The pairs of texts that a list of pairs of strings holds.
pub open spec fn pairs_view(s: Seq<(String, String)>) -> Seq<(Seq<char>, Seq<char>)> {
    Seq::new(s.len(), |i: int| (s[i].0@, s[i].1@))
}

/// The dependencies that a list of pairs holds, each peer by its name.
pub open spec fn depends_view(s: Seq<(String, DependsOnCondition)>) -> Seq<
    (Seq<char>, DependsOnCondition),
> {
    Seq::new(s.len(), |i: int| (s[i].0@, s[i].1))
}

/// One service of the entry file: the directory that holds its declaration.
#[derive(Debug, Clone, PartialEq, Eq)]
pub struct EntrypointFileEntry {
    pub path: String,
}

/// One network of the entry file. An external network exists already and
/// is neither created nor removed by the manager.
#[derive(Debug, Clone, PartialEq, Eq)]
pub struct NetworkDeclarationEntry {
    pub name: String,
    pub driver: NetworkDriver,
    pub external: bool,
    pub internal: bool,
    pub attachable: bool,
    pub labels: Vec<(String, String)>,
}

/// The entry file: where the services are, which networks they share, and
/// how many seconds pass between two polls for new images.
#[derive(Debug, Clone, PartialEq, Eq)]
pub struct EntrypointFile {
    pub services: Vec<EntrypointFileEntry>,
    pub networks: Vec<NetworkDeclarationEntry>,
    pub delay: u64,
}

/// Whether the two strings are the same text.
pub fn same_string(a: &String, b: &String) -> (r: bool)
    ensures
        r == (a@ == b@),
{
    *a == *b
}

/// Whether the two optional strings are the same.
pub fn same_opt_string(a: &Option<String>, b: &Option<String>) -> (r: bool)
    ensures
        r == (a.deep_view() == b.deep_view()),
{
    match (a, b) {
        (None, None) => true,
        (Some(x), Some(y)) => same_string(x, y),
        _ => false,
    }
}

/// Whether the two lists hold the same strings in the same order.
pub fn same_strings(a: &Vec<String>, b: &Vec<String>) -> (r: bool)
    ensures
        r == (a.deep_view() == b.deep_view()),
{
    if a.len() != b.len() {
        assert(a.deep_view().len() != b.deep_view().len());
        return false;
    }
    let mut i: usize = 0;
    while i < a.len()
        invariant
            i <= a.len(),
            a.len() == b.len(),
            forall|j: int| 0 <= j < i ==> a@[j]@ == b@[j]@,
        decreases a.len() - i,
    {
        if !same_string(&a[i], &b[i]) {
            assert(a.deep_view()[i as int] != b.deep_view()[i as int]);
            return false;
        }
        i += 1;
    }
    assert(a.deep_view() =~= b.deep_view());
    true
}

/// Whether the two optional lists of strings are the same.
pub fn same_opt_strings(a: &Option<Vec<String>>, b: &Option<Vec<String>>) -> (r: bool)
    ensures
        r == (a.deep_view() == b.deep_view()),
{
    match (a, b) {
        (None, None) => true,
        (Some(x), Some(y)) => same_strings(x, y),
        _ => false,
    }
}

/// Whether the two lists hold the same pairs of strings in the same order.
pub fn same_pairs(a: &Vec<(String, String)>, b: &Vec<(String, String)>) -> (r: bool)
    ensures
        r == (pairs_view(a@) == pairs_view(b@)),
{
    if a.len() != b.len() {
        assert(pairs_view(a@).len() != pairs_view(b@).len());
        return false;
    }
    let mut i: usize = 0;
    while i < a.len()
        invariant
            i <= a.len(),
            a.len() == b.len(),
            forall|j: int| 0 <= j < i ==> a@[j].0@ == b@[j].0@ && a@[j].1@ == b@[j].1@,
        decreases a.len() - i,
    {
        if !(same_string(&a[i].0, &b[i].0) && same_string(&a[i].1, &b[i].1)) {
            assert(pairs_view(a@)[i as int] != pairs_view(b@)[i as int]);
            return false;
        }
        i += 1;
    }
    assert(pairs_view(a@) =~= pairs_view(b@));
    true
}

impl ServiceEntry {
    /// Whether the two entries say the same.
    pub fn same_as(&self, other: &ServiceEntry) -> (r: bool)
        ensures
            r == (self.deep_view() == other.deep_view()),
    {
        same_string(&self.name, &other.name) && same_string(&self.image, &other.image)
            && same_opt_strings(&self.command, &other.command) && same_opt_strings(
            &self.entrypoint,
            &other.entrypoint,
        ) && same_opt_string(&self.working_dir, &other.working_dir) && same_opt_string(
            &self.user,
            &other.user,
        ) && same_opt_string(&self.hostname, &other.hostname) && same_opt_string(
            &self.memory,
            &other.memory,
        ) && same_opt_string(&self.cpus, &other.cpus)
    }
}

impl DispenserConfig {
    /// Whether the two say the same.
    pub fn same_as(&self, other: &DispenserConfig) -> (r: bool)
        ensures
            r == (self.deep_view() == other.deep_view()),
    {
        self.watch == other.watch && self.initialize == other.initialize && same_opt_string(
            &self.cron,
            &other.cron,
        ) && self.pull == other.pull
    }
}

impl ProxySettings {
    /// Whether the two say the same.
    pub fn same_as(&self, other: &ProxySettings) -> (r: bool)
        ensures
            r == (self.deep_view() == other.deep_view()),
    {
        same_string(&self.host, &other.host) && same_opt_string(&self.path, &other.path)
            && self.service_port == other.service_port && same_opt_string(
            &self.cert_file,
            &other.cert_file,
        ) && same_opt_string(&self.key_file, &other.key_file)
    }

    /// Whether the operator supplies the certificate: both files are named.
    pub fn has_manual_cert(&self) -> (r: bool)
        ensures
            r == (self.cert_file is Some && self.key_file is Some),
    {
        self.cert_file.is_some() && self.key_file.is_some()
    }
}

fn same_ports(a: &Vec<PortEntry>, b: &Vec<PortEntry>) -> (r: bool)
    ensures
        r == (a@ == b@),
{
    if a.len() != b.len() {
        return false;
    }
    let mut i: usize = 0;
    while i < a.len()
        invariant
            i <= a.len(),
            a.len() == b.len(),
            forall|j: int| 0 <= j < i ==> a@[j] == b@[j],
        decreases a.len() - i,
    {
        if !(a[i].host == b[i].host && a[i].container == b[i].container) {
            return false;
        }
        i += 1;
    }
    assert(a@ =~= b@);
    true
}

fn same_volumes(a: &Vec<VolumeEntry>, b: &Vec<VolumeEntry>) -> (r: bool)
    ensures
        r == (a.deep_view() == b.deep_view()),
{
    if a.len() != b.len() {
        assert(a.deep_view().len() != b.deep_view().len());
        return false;
    }
    let mut i: usize = 0;
    while i < a.len()
        invariant
            i <= a.len(),
            a.len() == b.len(),
            forall|j: int| 0 <= j < i ==> a@[j].deep_view() == b@[j].deep_view(),
        decreases a.len() - i,
    {
        if !(same_string(&a[i].source, &b[i].source) && same_string(&a[i].target, &b[i].target)
            && a[i].readonly == b[i].readonly) {
            assert(a.deep_view()[i as int] != b.deep_view()[i as int]);
            return false;
        }
        i += 1;
    }
    assert(a.deep_view() =~= b.deep_view());
    true
}

fn same_networks(a: &Vec<Network>, b: &Vec<Network>) -> (r: bool)
    ensures
        r == (a.deep_view() == b.deep_view()),
{
    if a.len() != b.len() {
        assert(a.deep_view().len() != b.deep_view().len());
        return false;
    }
    let mut i: usize = 0;
    while i < a.len()
        invariant
            i <= a.len(),
            a.len() == b.len(),
            forall|j: int| 0 <= j < i ==> a@[j].name@ == b@[j].name@,
        decreases a.len() - i,
    {
        if !same_string(&a[i].name, &b[i].name) {
            assert(a.deep_view()[i as int] != b.deep_view()[i as int]);
            return false;
        }
        i += 1;
    }
    assert(a.deep_view() =~= b.deep_view());
    true
}

fn same_depends(a: &Vec<(String, DependsOnCondition)>, b: &Vec<(String, DependsOnCondition)>) -> (r:
    bool)
    ensures
        r == (depends_view(a@) == depends_view(b@)),
{
    if a.len() != b.len() {
        assert(depends_view(a@).len() != depends_view(b@).len());
        return false;
    }
    let mut i: usize = 0;
    while i < a.len()
        invariant
            i <= a.len(),
            a.len() == b.len(),
            forall|j: int| 0 <= j < i ==> a@[j].0@ == b@[j].0@ && a@[j].1 == b@[j].1,
        decreases a.len() - i,
    {
        if !(same_string(&a[i].0, &b[i].0) && a[i].1 == b[i].1) {
            assert(depends_view(a@)[i as int] != depends_view(b@)[i as int]);
            return false;
        }
        i += 1;
    }
    assert(depends_view(a@) =~= depends_view(b@));
    true
}

fn same_opt_proxy(a: &Option<ProxySettings>, b: &Option<ProxySettings>) -> (r: bool)
    ensures
        r == (a.deep_view() == b.deep_view()),
{
    match (a, b) {
        (None, None) => true,
        (Some(x), Some(y)) => x.same_as(y),
        _ => false,
    }
}

/// Declarations whose environments and dependencies stand for maps are
/// compared as those maps: the lists of two such declarations are equal
/// exactly if the maps are.
pub proof fn lemma_declarations_compare_as_maps(a: ServiceFileView, b: ServiceFileView)
    requires
        is_keyed(a.env),
        is_keyed(b.env),
        is_keyed(a.depends_on),
        is_keyed(b.depends_on),
    ensures
        a.env == b.env <==> map_of(a.env) == map_of(b.env),
        a.depends_on == b.depends_on <==> map_of(a.depends_on) == map_of(b.depends_on),
{
    if map_of(a.env) == map_of(b.env) {
        lemma_one_map_has_one_list(a.env, b.env);
    }
    if map_of(a.depends_on) == map_of(b.depends_on) {
        lemma_one_map_has_one_list(a.depends_on, b.depends_on);
    }
}

impl ServiceFile {
    /// Whether the environment and the dependencies of the declaration
    /// stand for maps: in both lists the keys rise strictly.
    pub open spec fn is_keyed(&self) -> bool {
        is_keyed(pairs_view(self.env@)) && is_keyed(depends_view(self.depends_on@))
    }

    /// Whether the environment and the dependencies of the declaration
    /// stand for maps.
    pub fn has_keyed_lists(&self) -> (r: bool)
        ensures
            r == self.is_keyed(),
    {
        proof {
            lemma_the_keys_decide(keyed_view(self.env@), pairs_view(self.env@));
            assert(keyed_view(self.depends_on@) =~= depends_view(self.depends_on@));
        }
        keys_rise(&self.env) && keys_rise(&self.depends_on)
    }

    /// Whether the two declarations say the same: every field equal, lists in
    /// the same order. Where the environments and the dependencies stand for
    /// maps, they are compared as maps.
    pub fn same_as(&self, other: &ServiceFile) -> (r: bool)
        ensures
            r == (self.deep_view() == other.deep_view()),
    {
        self.service.same_as(&other.service) && same_ports(&self.ports, &other.ports)
            && same_volumes(&self.volume, &other.volume) && same_pairs(&self.env, &other.env)
            && self.restart == other.restart && same_networks(&self.network, &other.network)
            && self.dispenser.same_as(&other.dispenser) && same_depends(
            &self.depends_on,
            &other.depends_on,
        ) && same_opt_proxy(&self.proxy, &other.proxy)
    }
}

} // verus!
