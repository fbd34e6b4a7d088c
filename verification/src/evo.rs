//! Configuration, connection state and display decisions of the EVO-X2
//! tray widget.
use vstd::prelude::*;
use crate::text::{
    alphanumeric, chars_eq, chars_of, decimal, decimal_string, extend_chars, is_alphanumeric,
    parse_unsigned, string_of, trim, trim_str,
};

verus! {

/// Widget settings.
pub struct EvoConfig {
    pub evo_ip: String,
    pub metrics_port: u16,
    pub ssh_user: String,
    pub poll_interval_secs: u64,
    pub github_url: String,
    pub setup_dir: String,
}

/// Default EVO-X2 address: none.
pub fn default_ip() -> (r: String)
    ensures
        r@ == Seq::<char>::empty(),
{
    String::new()
}

/// Default metrics port.
pub fn default_port() -> (r: u16)
    ensures
        r == 8084,
{
    8084
}

/// Default SSH user.
pub fn default_user() -> (r: String)
    ensures
        r@ == "jan"@,
{
    String::from_str("jan")
}

/// Default poll interval in seconds.
pub fn default_poll() -> (r: u64)
    ensures
        r == 5,
{
    5
}

pub open spec fn metrics_url_of(ip: Seq<char>, port: u16) -> Seq<char> {
    "http://"@ + ip + ":"@ + decimal(port as nat) + "/metrics"@
}

impl EvoConfig {
    /// Default settings for a user whose home directory is `home`.
    pub fn default_with_home(home: &str) -> (c: Self)
        ensures
            c.evo_ip@ == Seq::<char>::empty(),
            c.metrics_port == 8084,
            c.ssh_user@ == "jan"@,
            c.poll_interval_secs == 5,
            c.github_url@ == Seq::<char>::empty(),
            c.setup_dir@ == home@ + "/Projekte/evo/setup"@,
    {
        let mut setup = chars_of(home);
        extend_chars(&mut setup, &chars_of("/Projekte/evo/setup"));
        EvoConfig {
            evo_ip: default_ip(),
            metrics_port: default_port(),
            ssh_user: default_user(),
            poll_interval_secs: default_poll(),
            github_url: String::new(),
            setup_dir: string_of(&setup),
        }
    }

    /// URL of the metrics endpoint.
    pub fn metrics_url(&self) -> (r: String)
        ensures
            r@ == metrics_url_of(self.evo_ip@, self.metrics_port),
    {
        let mut v = chars_of("http://");
        extend_chars(&mut v, &chars_of(self.evo_ip.as_str()));
        extend_chars(&mut v, &chars_of(":"));
        let port = decimal_string(self.metrics_port as u64);
        extend_chars(&mut v, &chars_of(port.as_str()));
        extend_chars(&mut v, &chars_of("/metrics"));
        string_of(&v)
    }

    /// The settings file under the user's configuration directory (`/tmp` when
    /// there is none).
    pub fn config_path(config_dir: Option<&str>) -> (r: String)
        ensures
            r@ == crate::pcie::path_join(
                crate::pcie::path_join(
                    match config_dir {
                        Some(d) => d@,
                        None => "/tmp"@,
                    },
                    "evo-manager"@,
                ),
                "config.json"@,
            ),
    {
        let base = match config_dir {
            Some(d) => d,
            None => "/tmp",
        };
        let dir = crate::pcie::join_path(base, "evo-manager");
        crate::pcie::join_path(dir.as_str(), "config.json")
    }
}

/// Connection state to the EVO-X2.
#[derive(Debug, Clone, PartialEq)]
pub enum ConnectionState {
    Connected,
    Connecting,
    Reconnecting(u32),
    Error(String),
}

/// GPU readings.
#[derive(Debug, Clone, Copy, PartialEq, Eq)]
pub struct GpuInfo {
    pub temperature_c: Option<u32>,
    pub utilization_pct: Option<u32>,
}

/// Static system facts.
#[derive(Debug, Clone, PartialEq)]
pub struct SystemInfo {
    pub soc: String,
    pub gpu_arch: String,
    pub ram_spec: String,
    pub cpu_cores: u32,
    pub uptime_seconds: u64,
}

/// Tailscale identity.
#[derive(Debug, Clone, PartialEq)]
pub struct TailscaleInfo {
    pub ip: Option<String>,
    pub hostname: Option<String>,
}

/// Ollama models: names of loaded models and of installed models.
#[derive(Debug, Clone, PartialEq)]
pub struct OllamaInfo {
    pub running_models: Vec<String>,
    pub available_models: Vec<String>,
}

/// The metrics the widget decides on (sizes in bytes; the fractional
/// gigabyte and load figures are only displayed).
#[derive(Debug, Clone, PartialEq)]
pub struct EvoMetrics {
    pub gtt_used_bytes: u64,
    pub gtt_total_bytes: u64,
    pub ram_used_bytes: u64,
    pub ram_total_bytes: u64,
    /// `(service name, systemd state)`, names distinct.
    pub services: Vec<(String, String)>,
    pub gpu: GpuInfo,
    pub ollama: Option<OllamaInfo>,
    pub system: SystemInfo,
    pub tailscale: Option<TailscaleInfo>,
}

/// Full widget state, updated by the polling loop.
#[derive(Debug, Clone, PartialEq)]
pub struct WidgetState {
    pub connection: ConnectionState,
    pub metrics: Option<EvoMetrics>,
}

/// Number of services whose state is `active`.
pub open spec fn count_active(s: Seq<(String, String)>) -> nat
    decreases s.len(),
{
    if s.len() == 0 {
        0
    } else {
        count_active(s.drop_last()) + if s.last().1@ == "active"@ { 1nat } else { 0nat }
    }
}

/// Each service name occurs at most once (the states come from a map keyed
/// by service name).
pub open spec fn names_distinct(s: Seq<(String, String)>) -> bool {
    forall|i: int, j: int| 0 <= i < j < s.len() ==> #[trigger] s[i].0@ != #[trigger] s[j].0@
}

impl EvoMetrics {
    /// Well-formed metrics: service names are distinct.
    pub open spec fn wf(self) -> bool {
        names_distinct(self.services@)
    }
}

impl WidgetState {
    /// Well-formed state: its metrics, if any, are well-formed.
    pub open spec fn wf(self) -> bool {
        match self.metrics {
            Some(m) => m.wf(),
            None => true,
        }
    }
}

/// Whether every service name occurs at most once.
pub fn services_distinct(services: &Vec<(String, String)>) -> (r: bool)
    ensures
        r == names_distinct(services@),
{
    let mut j: usize = 0;
    while j < services.len()
        invariant
            j <= services.len(),
            forall|a: int, b: int| 0 <= a < b < j ==> #[trigger] services@[a].0@ != #[trigger] services@[b].0@,
        decreases services.len() - j,
    {
        let mut i: usize = 0;
        while i < j
            invariant
                i <= j,
                j < services.len(),
                forall|a: int, b: int| 0 <= a < b < j ==> #[trigger] services@[a].0@ != #[trigger] services@[b].0@,
                forall|a: int| 0 <= a < i ==> #[trigger] services@[a].0@ != services@[j as int].0@,
            decreases j - i,
        {
            if crate::text::str_eq(services[i].0.as_str(), services[j].0.as_str()) {
                assert(services@[i as int].0@ == services@[j as int].0@);
                return false;
            }
            i = i + 1;
        }
        j = j + 1;
    }
    true
}

/// Tray colour: gray without services, green when all are active, yellow
/// when some are, red when none is.
pub open spec fn color_for(m: Option<EvoMetrics>) -> Seq<char> {
    match m {
        Some(m) => {
            let active = count_active(m.services@);
            let total = m.services@.len();
            if total == 0 {
                "gray"@
            } else if active == total {
                "green"@
            } else if active > 0 {
                "yellow"@
            } else {
                "red"@
            }
        },
        None => "gray"@,
    }
}

/// Service `i` of `s` is `active`.
pub open spec fn is_active(s: Seq<(String, String)>, i: int) -> bool {
    s[i].1@ == "active"@
}

proof fn lemma_count_active_bounds(s: Seq<(String, String)>)
    ensures
        count_active(s) <= s.len(),
        count_active(s) == s.len() <==> forall|i: int| 0 <= i < s.len() ==> #[trigger] is_active(s, i),
        count_active(s) == 0 <==> forall|i: int| 0 <= i < s.len() ==> !#[trigger] is_active(s, i),
    decreases s.len(),
{
    if s.len() > 0 {
        let init = s.drop_last();
        lemma_count_active_bounds(init);
        assert forall|i: int| 0 <= i < init.len() implies #[trigger] is_active(init, i) == is_active(s, i) by {
            assert(init[i] == s[i]);
        }
        if forall|i: int| 0 <= i < s.len() ==> #[trigger] is_active(s, i) {
            assert(is_active(s, s.len() - 1));
            assert forall|i: int| 0 <= i < init.len() implies #[trigger] is_active(init, i) by {
                assert(is_active(s, i));
            }
        }
        if forall|i: int| 0 <= i < s.len() ==> !#[trigger] is_active(s, i) {
            assert(!is_active(s, s.len() - 1));
            assert forall|i: int| 0 <= i < init.len() implies !#[trigger] is_active(init, i) by {
                assert(!is_active(s, i));
            }
        }
        if count_active(s) == s.len() {
            assert forall|i: int| 0 <= i < s.len() implies #[trigger] is_active(s, i) by {
                if i < init.len() {
                    assert(is_active(init, i));
                }
            }
        }
        if count_active(s) == 0 {
            assert forall|i: int| 0 <= i < s.len() implies !#[trigger] is_active(s, i) by {
                if i < init.len() {
                    assert(!is_active(init, i));
                }
            }
        }
    }
}

/// The tray colour is gray without metrics or services, green exactly when
/// every service is active, red exactly when none is, and yellow exactly
/// when some are active and some are not.
pub proof fn law_tray_colour(m: Option<EvoMetrics>)
    ensures
        m is None ==> color_for(m) == "gray"@,
        m matches Some(x) ==> {
            let s = x.services@;
            &&& (color_for(m) == "gray"@ <==> s.len() == 0)
            &&& (color_for(m) == "green"@ <==> s.len() > 0 && forall|i: int|
                0 <= i < s.len() ==> #[trigger] is_active(s, i))
            &&& (color_for(m) == "red"@ <==> s.len() > 0 && forall|i: int|
                0 <= i < s.len() ==> !#[trigger] is_active(s, i))
            &&& (color_for(m) == "yellow"@ <==> (exists|i: int| 0 <= i < s.len() && #[trigger] is_active(s, i))
                && (exists|j: int| 0 <= j < s.len() && !#[trigger] is_active(s, j)))
        },
{
    reveal_strlit("gray");
    reveal_strlit("green");
    reveal_strlit("red");
    reveal_strlit("yellow");
    assert("gray"@.len() == 4 && "green"@.len() == 5 && "red"@.len() == 3 && "yellow"@.len() == 6);
    if let Some(x) = m {
        lemma_count_active_bounds(x.services@);
    }
}

fn count_active_exec(services: &Vec<(String, String)>) -> (n: usize)
    ensures
        n == count_active(services@),
        n <= services.len(),
{
    let mut n: usize = 0;
    let mut i: usize = 0;
    while i < services.len()
        invariant
            i <= services.len(),
            n == count_active(services@.subrange(0, i as int)),
            n <= i,
        decreases services.len() - i,
    {
        assert(services@.subrange(0, i + 1).drop_last() =~= services@.subrange(0, i as int));
        if crate::text::str_eq(services[i].1.as_str(), "active") {
            n = n + 1;
        }
        i = i + 1;
    }
    assert(services@.subrange(0, services@.len() as int) =~= services@);
    n
}

impl WidgetState {
    /// Tray icon colour from the service states.
    pub fn warning_color(&self) -> (r: &'static str)
        requires
            self.wf(),
        ensures
            r@ == color_for(self.metrics),
    {
        match &self.metrics {
            Some(m) => {
                let active = count_active_exec(&m.services);
                let total = m.services.len();
                if total == 0 {
                    "gray"
                } else if active == total {
                    "green"
                } else if active > 0 {
                    "yellow"
                } else {
                    "red"
                }
            },
            None => "gray",
        }
    }

    /// `(active services, all services)`; `(0, 0)` without metrics.
    pub fn active_count(&self) -> (r: (usize, usize))
        requires
            self.wf(),
        ensures
            match self.metrics {
                Some(m) => r.0 == count_active(m.services@) && r.1 == m.services@.len(),
                None => r == (0usize, 0usize),
            },
            r.0 <= r.1,
    {
        match &self.metrics {
            Some(m) => (count_active_exec(&m.services), m.services.len()),
            None => (0, 0),
        }
    }
}

// ---------------------------------------------------------------------------
// Polling
// ---------------------------------------------------------------------------

/// What one poll of the metrics endpoint gave.
pub enum PollOutcome {
    /// No address is configured; nothing was fetched.
    NoAddress,
    Fetched(EvoMetrics),
    Failed,
}

/// Failure count of the polling loop.
pub struct Poller {
    pub consecutive_failures: u32,
}

pub open spec fn is_error_with(c: ConnectionState, msg: Seq<char>) -> bool {
    match c {
        ConnectionState::Error(m) => m@ == msg,
        _ => false,
    }
}

/// The failure count after one poll: reset by a successful fetch, raised
/// by a failed one, kept when no address is configured.
pub open spec fn failures_after(n: nat, outcome: PollOutcome) -> nat {
    match outcome {
        PollOutcome::NoAddress => n,
        PollOutcome::Fetched(_) => 0,
        PollOutcome::Failed => n + 1,
    }
}

/// The failure count after the polls `outcomes`, in turn, starting from `n`.
pub open spec fn failures_run(n: nat, outcomes: Seq<PollOutcome>) -> nat
    decreases outcomes.len(),
{
    if outcomes.len() == 0 {
        n
    } else {
        failures_run(failures_after(n, outcomes[0]), outcomes.drop_first())
    }
}

/// The failed polls since the last successful fetch (polls without an
/// address are not counted).
pub open spec fn failed_in_a_row(outcomes: Seq<PollOutcome>) -> nat
    decreases outcomes.len(),
{
    if outcomes.len() == 0 {
        0
    } else {
        match outcomes.last() {
            PollOutcome::Fetched(_) => 0,
            PollOutcome::Failed => failed_in_a_row(outcomes.drop_last()) + 1,
            PollOutcome::NoAddress => failed_in_a_row(outcomes.drop_last()),
        }
    }
}

proof fn lemma_failures_run_push(n: nat, outcomes: Seq<PollOutcome>, o: PollOutcome)
    ensures
        failures_run(n, outcomes.push(o)) == failures_after(failures_run(n, outcomes), o),
    decreases outcomes.len(),
{
    let s = outcomes.push(o);
    if outcomes.len() == 0 {
        assert(s[0] == o);
        assert(s.drop_first() =~= Seq::<PollOutcome>::empty());
        assert(failures_run(failures_after(n, o), s.drop_first()) == failures_after(n, o));
        assert(failures_run(n, outcomes) == n);
    } else {
        assert(s[0] == outcomes[0]);
        assert(s.drop_first() =~= outcomes.drop_first().push(o));
        lemma_failures_run_push(failures_after(n, outcomes[0]), outcomes.drop_first(), o);
        assert(failures_run(n, s) == failures_run(failures_after(n, outcomes[0]), outcomes.drop_first().push(o)));
    }
}

/// Over any run of polls of a fresh poller, the failure count is the number
/// of failed polls since the last successful fetch; with `record` this
/// means the box is shown reconnecting for the first four failures in a
/// row and unreachable from the fifth on, until a fetch succeeds.
pub proof fn law_poll_counts_failures_in_a_row(outcomes: Seq<PollOutcome>)
    ensures
        failures_run(0, outcomes) == failed_in_a_row(outcomes),
    decreases outcomes.len(),
{
    if outcomes.len() > 0 {
        let init = outcomes.drop_last();
        law_poll_counts_failures_in_a_row(init);
        lemma_failures_run_push(0, init, outcomes.last());
        assert(init.push(outcomes.last()) =~= outcomes);
    }
}

impl Poller {
    pub fn new() -> (p: Self)
        ensures
            p.consecutive_failures == 0,
    {
        Poller { consecutive_failures: 0 }
    }

    /// The widget state to publish after one poll; counts consecutive
    /// failures (reset by a success), and reports the box unreachable from
    /// the fifth failure on.
    pub fn record(&mut self, outcome: PollOutcome) -> (ws: WidgetState)
        requires
            outcome is Failed ==> old(self).consecutive_failures < u32::MAX,
            outcome matches PollOutcome::Fetched(m) ==> m.wf(),
        ensures
            ws.wf(),
            final(self).consecutive_failures == failures_after(
                old(self).consecutive_failures as nat,
                outcome,
            ),
            match outcome {
                PollOutcome::NoAddress => {
                    &&& final(self).consecutive_failures == old(self).consecutive_failures
                    &&& ws.metrics is None
                    &&& is_error_with(ws.connection, "Keine IP konfiguriert"@)
                },
                PollOutcome::Fetched(m) => {
                    &&& final(self).consecutive_failures == 0
                    &&& ws.metrics == Some(m)
                    &&& ws.connection == ConnectionState::Connected
                },
                PollOutcome::Failed => {
                    &&& final(self).consecutive_failures == old(self).consecutive_failures + 1
                    &&& ws.metrics is None
                    &&& if final(self).consecutive_failures >= 5 {
                        is_error_with(ws.connection, "EVO-X2 nicht erreichbar"@)
                    } else {
                        ws.connection == ConnectionState::Reconnecting(final(self).consecutive_failures)
                    }
                },
            },
    {
        match outcome {
            PollOutcome::NoAddress => WidgetState {
                connection: ConnectionState::Error(String::from_str("Keine IP konfiguriert")),
                metrics: None,
            },
            PollOutcome::Fetched(m) => {
                self.consecutive_failures = 0;
                WidgetState { connection: ConnectionState::Connected, metrics: Some(m) }
            },
            PollOutcome::Failed => {
                self.consecutive_failures = self.consecutive_failures + 1;
                let conn = if self.consecutive_failures >= 5 {
                    ConnectionState::Error(String::from_str("EVO-X2 nicht erreichbar"))
                } else {
                    ConnectionState::Reconnecting(self.consecutive_failures)
                };
                WidgetState { connection: conn, metrics: None }
            },
        }
    }
}

} // verus!

verus! {

// ---------------------------------------------------------------------------
// Popup texts and choices
// ---------------------------------------------------------------------------

/// Label of a connection state in the status bar.
pub open spec fn connection_label(c: ConnectionState) -> Seq<char> {
    match c {
        ConnectionState::Connected => "Verbunden"@,
        ConnectionState::Connecting => "Verbinde..."@,
        ConnectionState::Reconnecting(n) => "Reconnect #"@ + decimal(n as nat),
        ConnectionState::Error(e) => e@,
    }
}

/// Label of a connection state in the footer, with its symbol.
pub open spec fn connection_footer(c: ConnectionState) -> Seq<char> {
    match c {
        ConnectionState::Connected => "\u{25CF} Verbunden"@,
        ConnectionState::Connecting => "\u{25CB} Verbinde..."@,
        ConnectionState::Reconnecting(n) => "\u{21BB} Reconnect #"@ + decimal(n as nat),
        ConnectionState::Error(e) => "\u{2715} "@ + e@,
    }
}

/// Status-bar label of a connection state.
pub fn connection_label_text(c: &ConnectionState) -> (r: String)
    ensures
        r@ == connection_label(*c),
{
    match c {
        ConnectionState::Connected => String::from_str("Verbunden"),
        ConnectionState::Connecting => String::from_str("Verbinde..."),
        ConnectionState::Reconnecting(n) => {
            let d = decimal_string(*n as u64);
            crate::text::concat_str("Reconnect #", d.as_str())
        },
        ConnectionState::Error(e) => e.clone(),
    }
}

/// Footer label of a connection state.
pub fn connection_footer_text(c: &ConnectionState) -> (r: String)
    ensures
        r@ == connection_footer(*c),
{
    match c {
        ConnectionState::Connected => String::from_str("\u{25CF} Verbunden"),
        ConnectionState::Connecting => String::from_str("\u{25CB} Verbinde..."),
        ConnectionState::Reconnecting(n) => {
            let d = decimal_string(*n as u64);
            crate::text::concat_str("\u{21BB} Reconnect #", d.as_str())
        },
        ConnectionState::Error(e) => crate::text::concat_str("\u{2715} ", e.as_str()),
    }
}

/// Status bar text: `a/t Services aktiv` when services are known, else the connection label.
pub fn status_text(state: &WidgetState) -> (r: String)
    requires
        state.wf(),
    ensures
        match state.metrics {
            Some(m) if m.services@.len() > 0 => r@ == decimal(count_active(m.services@)) + "/"@
                + decimal(m.services@.len()) + " Services aktiv"@,
            _ => r@ == connection_label(state.connection),
        },
{
    let (active, total) = state.active_count();
    if total > 0 {
        let a = decimal_string(active as u64);
        let t = decimal_string(total as u64);
        let mut v = chars_of(a.as_str());
        extend_chars(&mut v, &chars_of("/"));
        extend_chars(&mut v, &chars_of(t.as_str()));
        extend_chars(&mut v, &chars_of(" Services aktiv"));
        string_of(&v)
    } else {
        connection_label_text(&state.connection)
    }
}

/// Symbol shown for a tray colour.
pub fn status_symbol(color: &str) -> (r: &'static str)
    ensures
        r@ == (if color@ == "green"@ {
            "\u{25CF}"@
        } else if color@ == "yellow"@ {
            "\u{26A0}"@
        } else if color@ == "red"@ {
            "\u{26D4}"@
        } else {
            "\u{25CB}"@
        }),
{
    if crate::text::str_eq(color, "green") {
        "\u{25CF}"
    } else if crate::text::str_eq(color, "yellow") {
        "\u{26A0}"
    } else if crate::text::str_eq(color, "red") {
        "\u{26D4}"
    } else {
        "\u{25CB}"
    }
}

/// State of the first service named `name`, if listed.
pub open spec fn service_lookup(s: Seq<(String, String)>, name: Seq<char>, k: int) -> Option<Seq<char>>
    decreases s.len() - k,
{
    if k < 0 || k >= s.len() {
        None
    } else if s[k].0@ == name {
        Some(s[k].1@)
    } else {
        service_lookup(s, name, k + 1)
    }
}

pub open spec fn service_state_of(m: Option<EvoMetrics>, name: Seq<char>) -> Seq<char> {
    match m {
        Some(m) => match service_lookup(m.services@, name, 0) {
            Some(st) => st,
            None => "unknown"@,
        },
        None => "unknown"@,
    }
}

/// systemd state of a service as reported in the metrics, `unknown` when absent.
pub fn service_state(metrics: &Option<EvoMetrics>, name: &str) -> (r: String)
    requires
        metrics matches Some(m) ==> m.wf(),
    ensures
        r@ == service_state_of(*metrics, name@),
        metrics matches Some(m) ==> forall|i: int|
            0 <= i < m.services@.len() && #[trigger] m.services@[i].0@ == name@ ==> r@
                == m.services@[i].1@,
{
    match metrics {
        None => String::from_str("unknown"),
        Some(m) => {
            let mut k: usize = 0;
            while k < m.services.len()
                invariant
                    k <= m.services.len(),
                    *metrics == Some(*m),
                    service_lookup(m.services@, name@, 0) == service_lookup(m.services@, name@, k as int),
                    forall|a: int| 0 <= a < k ==> #[trigger] m.services@[a].0@ != name@,
                    names_distinct(m.services@),
                decreases m.services.len() - k,
            {
                if crate::text::str_eq(m.services[k].0.as_str(), name) {
                    proof {
                        assert forall|i: int|
                            0 <= i < m.services@.len() && #[trigger] m.services@[i].0@
                                == name@ implies m.services@[k as int].1@ == m.services@[i].1@ by {
                            if i != k {
                                if i < k {
                                    assert(m.services@[i].0@ != m.services@[k as int].0@);
                                } else {
                                    assert(m.services@[k as int].0@ != m.services@[i].0@);
                                }
                            }
                        }
                    }
                    return m.services[k].1.clone();
                }
                k = k + 1;
            }
            String::from_str("unknown")
        },
    }
}

/// Model name without its tag (text before the first `:`).
pub fn model_short_name(name: &str) -> (r: String)
    ensures
        r@ == crate::text::split_on(name@, ':')[0],
{
    let parts = crate::text::split_char(&chars_of(name), ':');
    proof {
        crate::text::lemma_split_on_nonempty(name@, ':');
    }
    string_of(&parts[0])
}

/// Colour class of a GPU temperature.
pub fn temperature_class(temp_c: u32) -> (r: &'static str)
    ensures
        r@ == (if temp_c > 85 {
            "red"@
        } else if temp_c > 70 {
            "yellow"@
        } else {
            "green"@
        }),
{
    if temp_c > 85 {
        "red"
    } else if temp_c > 70 {
        "yellow"
    } else {
        "green"
    }
}

pub open spec fn uptime_label(secs: u64) -> Seq<char> {
    decimal((secs / 3600) as nat) + "h "@ + decimal(((secs % 3600) / 60) as nat) + "m"@
}

/// Uptime as hours and minutes.
pub fn uptime_text(secs: u64) -> (r: String)
    ensures
        r@ == uptime_label(secs),
{
    let h = decimal_string(secs / 3600);
    let m = decimal_string((secs % 3600) / 60);
    let mut v = chars_of(h.as_str());
    extend_chars(&mut v, &chars_of("h "));
    extend_chars(&mut v, &chars_of(m.as_str()));
    extend_chars(&mut v, &chars_of("m"));
    string_of(&v)
}

pub open spec fn pair_views(v: Seq<(String, String)>) -> Seq<(Seq<char>, Seq<char>)> {
    v.map_values(|p: (String, String)| (p.0@, p.1@))
}

pub open spec fn opt_row(cond: bool, label: Seq<char>, value: Seq<char>) -> Seq<(Seq<char>, Seq<char>)> {
    if cond {
        seq![(label, value)]
    } else {
        Seq::empty()
    }
}

/// The rows of the "SYSTEM" section: only known facts are listed.
pub open spec fn system_rows_of(sys: SystemInfo, ts: Option<TailscaleInfo>) -> Seq<(Seq<char>, Seq<char>)> {
    opt_row(sys.soc@.len() != 0, "SoC"@, sys.soc@)
    + opt_row(sys.gpu_arch@.len() != 0, "GPU"@, sys.gpu_arch@)
    + opt_row(sys.ram_spec@.len() != 0, "RAM"@, sys.ram_spec@)
    + opt_row(sys.cpu_cores > 0, "Kerne"@, decimal(sys.cpu_cores as nat))
    + opt_row(sys.uptime_seconds > 0, "Uptime"@, uptime_label(sys.uptime_seconds))
    + match ts {
        Some(t) => match t.ip {
            Some(ip) => seq![("Tailscale"@, ip@)],
            None => Seq::empty(),
        },
        None => Seq::empty(),
    }
}

fn push_row(rows: &mut Vec<(String, String)>, label: &str, value: String)
    ensures
        pair_views(final(rows)@) == pair_views(old(rows)@).push((label@, value@)),
{
    rows.push((String::from_str(label), value));
    assert(pair_views(rows@) =~= pair_views(old(rows)@).push((label@, value@)));
}

/// Label/value rows describing the system.
pub fn system_rows(sys: &SystemInfo, tailscale: &Option<TailscaleInfo>) -> (r: Vec<(String, String)>)
    ensures
        pair_views(r@) == system_rows_of(*sys, *tailscale),
{
    let mut rows: Vec<(String, String)> = Vec::new();
    let ghost g0 = pair_views(rows@);
    assert(g0 =~= Seq::empty());
    if sys.soc.as_str().unicode_len() != 0 {
        push_row(&mut rows, "SoC", sys.soc.clone());
    }
    let ghost g1 = pair_views(rows@);
    assert(g1 =~= opt_row(sys.soc@.len() != 0, "SoC"@, sys.soc@));
    if sys.gpu_arch.as_str().unicode_len() != 0 {
        push_row(&mut rows, "GPU", sys.gpu_arch.clone());
    }
    let ghost g2 = pair_views(rows@);
    assert(g2 =~= g1 + opt_row(sys.gpu_arch@.len() != 0, "GPU"@, sys.gpu_arch@));
    if sys.ram_spec.as_str().unicode_len() != 0 {
        push_row(&mut rows, "RAM", sys.ram_spec.clone());
    }
    let ghost g3 = pair_views(rows@);
    assert(g3 =~= g2 + opt_row(sys.ram_spec@.len() != 0, "RAM"@, sys.ram_spec@));
    if sys.cpu_cores > 0 {
        push_row(&mut rows, "Kerne", decimal_string(sys.cpu_cores as u64));
    }
    let ghost g4 = pair_views(rows@);
    assert(g4 =~= g3 + opt_row(sys.cpu_cores > 0, "Kerne"@, decimal(sys.cpu_cores as nat)));
    if sys.uptime_seconds > 0 {
        push_row(&mut rows, "Uptime", uptime_text(sys.uptime_seconds));
    }
    let ghost g5 = pair_views(rows@);
    assert(g5 =~= g4 + opt_row(sys.uptime_seconds > 0, "Uptime"@, uptime_label(sys.uptime_seconds)));
    match tailscale {
        Some(t) => match &t.ip {
            Some(ip) => {
                push_row(&mut rows, "Tailscale", ip.clone());
            },
            None => {},
        },
        None => {},
    }
    assert(pair_views(rows@) =~= system_rows_of(*sys, *tailscale));
    rows
}

/// Installed models that are not loaded, in installation-list order.
pub open spec fn idle_of(avail: Seq<String>, running: Seq<Seq<char>>) -> Seq<Seq<char>>
    decreases avail.len(),
{
    if avail.len() == 0 {
        Seq::empty()
    } else {
        let rest = idle_of(avail.drop_last(), running);
        if running.contains(avail.last()@) {
            rest
        } else {
            rest.push(avail.last()@)
        }
    }
}

fn seq_has_string(v: &Vec<String>, s: &String) -> (r: bool)
    ensures
        r == crate::text::string_views(v@).contains(s@),
{
    let ghost vs = crate::text::string_views(v@);
    let mut i: usize = 0;
    while i < v.len()
        invariant
            i <= v.len(),
            vs == crate::text::string_views(v@),
            forall|j: int| 0 <= j < i ==> vs[j] != s@,
        decreases v.len() - i,
    {
        if crate::text::str_eq(v[i].as_str(), s.as_str()) {
            assert(vs[i as int] == s@);
            return true;
        }
        i = i + 1;
    }
    false
}

/// Installed models that are not loaded.
pub fn idle_models(info: &OllamaInfo) -> (r: Vec<String>)
    ensures
        crate::text::string_views(r@) == idle_of(info.available_models@, crate::text::string_views(info.running_models@)),
{
    let ghost run = crate::text::string_views(info.running_models@);
    let mut r: Vec<String> = Vec::new();
    let mut i: usize = 0;
    while i < info.available_models.len()
        invariant
            i <= info.available_models.len(),
            run == crate::text::string_views(info.running_models@),
            crate::text::string_views(r@) == idle_of(info.available_models@.subrange(0, i as int), run),
        decreases info.available_models.len() - i,
    {
        assert(info.available_models@.subrange(0, i + 1).drop_last() =~= info.available_models@.subrange(0, i as int));
        if !seq_has_string(&info.running_models, &info.available_models[i]) {
            r.push(info.available_models[i].clone());
        }
        assert(crate::text::string_views(r@) =~= idle_of(info.available_models@.subrange(0, i + 1), run));
        i = i + 1;
    }
    assert(info.available_models@.subrange(0, info.available_models@.len() as int) =~= info.available_models@);
    r
}

/// Model-count summary line.
pub fn ollama_summary(info: &OllamaInfo) -> (r: String)
    ensures
        r@ == decimal(info.running_models@.len()) + " laufend, "@ + decimal(info.available_models@.len())
            + " installiert"@,
{
    let a = decimal_string(info.running_models.len() as u64);
    let b = decimal_string(info.available_models.len() as u64);
    let mut v = chars_of(a.as_str());
    extend_chars(&mut v, &chars_of(" laufend, "));
    extend_chars(&mut v, &chars_of(b.as_str()));
    extend_chars(&mut v, &chars_of(" installiert"));
    string_of(&v)
}

/// The notices of the Ollama tab: unreachable without Ollama data;
/// otherwise "no model loaded" when none runs, then "none installed" when
/// none is installed, or "all active" when some are and none is idle.
pub open spec fn ollama_notices(info: Option<OllamaInfo>) -> Seq<Seq<char>> {
    match info {
        None => seq!["Ollama nicht erreichbar"@],
        Some(i) => {
            let loaded = if i.running_models@.len() == 0 {
                seq!["Keine Modelle geladen"@]
            } else {
                Seq::<Seq<char>>::empty()
            };
            let idle = idle_of(i.available_models@, crate::text::string_views(i.running_models@));
            let installed = if i.available_models@.len() == 0 {
                seq!["Keine Modelle installiert"@]
            } else if idle.len() == 0 {
                seq!["Alle Modelle aktiv"@]
            } else {
                Seq::<Seq<char>>::empty()
            };
            loaded + installed
        },
    }
}

/// The notices the Ollama tab shows, in order (see `ollama_notices`).
pub fn ollama_messages(info: &Option<OllamaInfo>) -> (r: Vec<String>)
    ensures
        crate::text::string_views(r@) == ollama_notices(*info),
        info is None ==> crate::text::string_views(r@) == seq!["Ollama nicht erreichbar"@],
{
    let mut r: Vec<String> = Vec::new();
    match info {
        None => {
            r.push(String::from_str("Ollama nicht erreichbar"));
            proof {
                assert(crate::text::string_views(r@) =~= seq!["Ollama nicht erreichbar"@]);
            }
        },
        Some(i) => {
            let ghost loaded = if i.running_models@.len() == 0 {
                seq!["Keine Modelle geladen"@]
            } else {
                Seq::<Seq<char>>::empty()
            };
            if i.running_models.len() == 0 {
                r.push(String::from_str("Keine Modelle geladen"));
            }
            assert(crate::text::string_views(r@) =~= loaded);
            let idle = idle_models(i);
            if i.available_models.len() == 0 {
                r.push(String::from_str("Keine Modelle installiert"));
            } else if idle.len() == 0 {
                r.push(String::from_str("Alle Modelle aktiv"));
            }
            proof {
                let installed = if i.available_models@.len() == 0 {
                    seq!["Keine Modelle installiert"@]
                } else if crate::text::string_views(idle@).len() == 0 {
                    seq!["Alle Modelle aktiv"@]
                } else {
                    Seq::<Seq<char>>::empty()
                };
                assert(crate::text::string_views(r@) =~= loaded + installed);
            }
        },
    }
    r
}

/// A dotted quad of decimal numbers up to 255.
pub open spec fn valid_ipv4(v: Seq<char>) -> bool {
    let parts = crate::text::split_on(v, '.');
    parts.len() == 4 && forall|k: int| 0 <= k < 4 ==> crate::text::parse_unsigned(#[trigger] parts[k], 255) is Some
}

/// Only alphanumeric characters, dots and hyphens.
pub open spec fn valid_hostname(v: Seq<char>) -> bool {
    forall|k: int| 0 <= k < v.len() ==> (alphanumeric(#[trigger] v[k]) || v[k] == '.' || v[k] == '-')
}

/// An address field is acceptable: empty, an IPv4 address, or a host name.
pub open spec fn valid_address(v: Seq<char>) -> bool {
    v.len() == 0 || valid_ipv4(v) || valid_hostname(v)
}

fn is_valid_address(v: &Vec<char>) -> (r: bool)
    ensures
        r == valid_address(v@),
{
    if v.len() == 0 {
        return true;
    }
    let parts = crate::text::split_char(v, '.');
    let mut ipv4 = parts.len() == 4;
    if ipv4 {
        let mut k: usize = 0;
        while k < 4
            invariant
                parts@.len() == 4,
                parts@.len() == crate::text::split_on(v@, '.').len(),
                forall|j: int| 0 <= j < parts@.len() ==> #[trigger] parts@[j]@ == crate::text::split_on(v@, '.')[j],
                k <= 4,
                ipv4 == forall|j: int| 0 <= j < k ==> crate::text::parse_unsigned(#[trigger] crate::text::split_on(v@, '.')[j], 255) is Some,
            decreases 4 - k,
        {
            let ok = crate::text::parse_unsigned_exec(&parts[k], 255).is_some();
            assert(parts@[k as int]@ == crate::text::split_on(v@, '.')[k as int]);
            ipv4 = ipv4 && ok;
            k = k + 1;
        }
    }
    if ipv4 {
        return true;
    }
    assert(!valid_ipv4(v@));
    let mut i: usize = 0;
    while i < v.len()
        invariant
            i <= v.len(),
            !valid_ipv4(v@),
            v@.len() > 0,
            forall|j: int| 0 <= j < i ==> (alphanumeric(#[trigger] v@[j]) || v@[j] == '.' || v@[j] == '-'),
        decreases v.len() - i,
    {
        let c = v[i];
        if !(is_alphanumeric(c) || c == '.' || c == '-') {
            return false;
        }
        i = i + 1;
    }
    true
}

/// Settings entered in the configuration tab, trimmed and checked.
pub struct SettingsInput {
    pub evo_ip: String,
    pub tailscale_ip: String,
    pub metrics_port: u16,
    pub ssh_user: String,
}

/// Checks the configuration fields in the order of the form: LAN address,
/// Tailscale address, port (1..=65535), SSH user (not empty). The error is
/// the message shown to the user.
pub fn validate_settings(ip: &str, tailscale_ip: &str, port: &str, user: &str) -> (r: Result<SettingsInput, String>)
    ensures
        match r {
            Ok(s) => {
                &&& s.evo_ip@ == trim(ip@)
                &&& s.tailscale_ip@ == trim(tailscale_ip@)
                &&& s.ssh_user@ == trim(user@)
                &&& valid_address(trim(ip@))
                &&& valid_address(trim(tailscale_ip@))
                &&& crate::text::parse_unsigned(trim(port@), 0xffff) == Some(s.metrics_port as nat)
                &&& s.metrics_port > 0
                &&& trim(user@).len() > 0
            },
            Err(m) => if !valid_address(trim(ip@)) {
                m@ == "\u{274C} Ungueltige LAN-IP!"@
            } else if !valid_address(trim(tailscale_ip@)) {
                m@ == "\u{274C} Ungueltige Tailscale-IP!"@
            } else if !(crate::text::parse_unsigned(trim(port@), 0xffff) matches Some(p) && p > 0) {
                m@ == "\u{274C} Ungueltiger Port (1-65535)!"@
            } else {
                trim(user@).len() == 0 && m@ == "\u{274C} SSH-Benutzer darf nicht leer sein!"@
            },
        },
{
    let ip_t = trim_str(ip);
    let ts_t = trim_str(tailscale_ip);
    let port_t = trim_str(port);
    let user_t = trim_str(user);
    if !is_valid_address(&chars_of(ip_t.as_str())) {
        return Err(String::from_str("\u{274C} Ungueltige LAN-IP!"));
    }
    if !is_valid_address(&chars_of(ts_t.as_str())) {
        return Err(String::from_str("\u{274C} Ungueltige Tailscale-IP!"));
    }
    let p = match crate::text::parse_unsigned_exec(&chars_of(port_t.as_str()), 0xffff) {
        Some(p) if p > 0 => p as u16,
        _ => {
            return Err(String::from_str("\u{274C} Ungueltiger Port (1-65535)!"));
        },
    };
    if user_t.as_str().unicode_len() == 0 {
        return Err(String::from_str("\u{274C} SSH-Benutzer darf nicht leer sein!"));
    }
    Ok(SettingsInput { evo_ip: ip_t, tailscale_ip: ts_t, metrics_port: p, ssh_user: user_t })
}

} // verus!
