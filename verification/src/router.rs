//! Travel-router manager: the request and status model, input sanitising,
//! and the interpretation of what the router's `ubus`/`uci`/`wg` commands
//! print.
use vstd::prelude::*;
use crate::json::{lookup, flag_of, items_of, member_array, member_bool, member_i64, member_object, member_of, member_str, member_u64, members_of, signed_of, text_of, unsigned_of, JsonValue};
use vstd::utf8::{encode_utf8, is_char_boundary};
use vstd::string::StringSliceAdditionalSpecFns;
use crate::text::{join, join_strings, alphanumeric, chars_of, concat_str, contains, lowercase, str_contains, to_lowercase, is_alphanumeric, lines, lines_of, parse_unsigned, parse_unsigned_exec, lemma_split_on_nonempty, replace, replace_chars, slice_chars, split_char, split_on, starts_with, starts_with_exec, str_eq, str_replace, string_of, string_of_range, string_views, trim, trim_bounds, trim_str, utf8_len, utf8_len_exceeds};

verus! {

// ── Request and response model ──

/// Login challenge of the router's RPC interface.
pub struct ChallengeResponse {
    pub nonce: Option<String>,
    pub salt: Option<String>,
    pub alg: Option<i32>,
}

#[derive(Clone)]
pub struct LoginRequest {
    pub router_ip: String,
    pub password: String,
}

pub struct LoginResponse {
    pub ok: bool,
    pub message: String,
}

pub struct TrafficStats {
    pub rx_bytes: u64,
    pub tx_bytes: u64,
    pub rx_formatted: String,
    pub tx_formatted: String,
    pub total_formatted: String,
}

pub struct WanStatus {
    pub connected: bool,
    pub wan_type: String,
    pub ip: String,
}

pub struct VpnStatus {
    pub connected: bool,
    pub server_name: String,
    pub public_ip: String,
    pub country: String,
}

pub struct WifiApStatus {
    pub ssid: String,
    pub clients: u32,
}

pub struct SystemStatus {
    pub uptime: u64,
    pub memory_used_pct: u32,
}

pub struct RouterStatus {
    pub wan: WanStatus,
    pub vpn: VpnStatus,
    pub wifi_ap: WifiApStatus,
    pub system: SystemStatus,
    pub traffic: TrafficStats,
}

#[derive(Clone)]
pub struct WifiNetwork {
    pub ssid: String,
    pub bssid: String,
    pub signal: i32,
    pub encryption: String,
    pub channel: u32,
}

pub struct WifiConnectRequest {
    pub ssid: String,
    pub password: String,
    pub bssid: String,
}

#[derive(Clone)]
pub struct VpnServer {
    pub id: String,
    pub name: String,
    pub city: String,
    pub ip: String,
    pub active: bool,
}

pub struct VpnConnectRequest {
    pub server_id: String,
}

pub struct NordVpnTokenRequest {
    pub access_token: String,
}

pub struct NordVpnResult {
    pub servers_loaded: u32,
    pub servers: Vec<VpnServer>,
}

pub struct SetupWifiRequest {
    pub ssid: String,
    pub password: String,
    pub band_24ghz: bool,
    pub band_5ghz: bool,
}

pub struct SetupSecurityRequest {
    pub auto_connect: bool,
    pub kill_switch: bool,
    pub dns_protection: bool,
}

pub struct SetupResult {
    pub step: String,
    pub success: bool,
    pub message: String,
}

/// Default of the optional flags of the setup requests.
pub fn default_true() -> (r: bool)
    ensures
        r,
{
    true
}

impl Default for TrafficStats {
    fn default() -> (r: Self)
        ensures
            r.rx_bytes == 0 && r.tx_bytes == 0,
            r.rx_formatted@.len() == 0 && r.tx_formatted@.len() == 0 && r.total_formatted@.len()
                == 0,
    {
        TrafficStats {
            rx_bytes: 0,
            tx_bytes: 0,
            rx_formatted: String::new(),
            tx_formatted: String::new(),
            total_formatted: String::new(),
        }
    }
}

impl Default for WanStatus {
    fn default() -> (r: Self)
        ensures
            !r.connected && r.wan_type@.len() == 0 && r.ip@.len() == 0,
    {
        WanStatus { connected: false, wan_type: String::new(), ip: String::new() }
    }
}

impl Default for VpnStatus {
    fn default() -> (r: Self)
        ensures
            !r.connected,
            r.server_name@.len() == 0 && r.public_ip@.len() == 0 && r.country@.len() == 0,
    {
        VpnStatus {
            connected: false,
            server_name: String::new(),
            public_ip: String::new(),
            country: String::new(),
        }
    }
}

impl Default for WifiApStatus {
    fn default() -> (r: Self)
        ensures
            r.ssid@.len() == 0 && r.clients == 0,
    {
        WifiApStatus { ssid: String::new(), clients: 0 }
    }
}

impl Default for SystemStatus {
    fn default() -> (r: Self)
        ensures
            r.uptime == 0 && r.memory_used_pct == 0,
    {
        SystemStatus { uptime: 0, memory_used_pct: 0 }
    }
}

impl Default for RouterStatus {
    fn default() -> (r: Self)
        ensures
            !r.wan.connected && r.wan.wan_type@.len() == 0 && r.wan.ip@.len() == 0,
            !r.vpn.connected && r.vpn.server_name@.len() == 0 && r.vpn.public_ip@.len() == 0
                && r.vpn.country@.len() == 0,
            r.wifi_ap.ssid@.len() == 0 && r.wifi_ap.clients == 0,
            r.system.uptime == 0 && r.system.memory_used_pct == 0,
            r.traffic.rx_bytes == 0 && r.traffic.tx_bytes == 0,
            r.traffic.rx_formatted@.len() == 0 && r.traffic.tx_formatted@.len() == 0
                && r.traffic.total_formatted@.len() == 0,
    {
        RouterStatus {
            wan: WanStatus::default(),
            vpn: VpnStatus::default(),
            wifi_ap: WifiApStatus::default(),
            system: SystemStatus::default(),
            traffic: TrafficStats::default(),
        }
    }
}

// ── Sanitising ──

/// The characters that `sanitize_shell` removes.
pub open spec fn shell_meta(c: char) -> bool {
    c == '\'' || c == '\\' || c == '`' || c == '$' || c == '(' || c == ')' || c == ';' || c == '|'
        || c == '&' || c == '\n' || c == '\r'
}

/// `s` without its shell metacharacters.
pub open spec fn shell_safe(s: Seq<char>) -> Seq<char> {
    s.filter(|c: char| !shell_meta(c))
}

/// Removes single quotes, backslashes and the common shell metacharacters,
/// so that the result can stand inside a single-quoted shell string.
pub fn sanitize_shell(input: &str) -> (r: String)
    ensures
        r@ == shell_safe(input@),
        forall|i: int| 0 <= i < r@.len() ==> !shell_meta(#[trigger] r@[i]),
{
    let v = chars_of(input);
    let mut out: Vec<char> = Vec::new();
    let mut i: usize = 0;
    while i < v.len()
        invariant
            i <= v.len(),
            out@ == shell_safe(v@.take(i as int)),
        decreases v.len() - i,
    {
        let c = v[i];
        proof {
            assert(v@.take(i + 1).drop_last() =~= v@.take(i as int));
            reveal(Seq::filter);
        }
        if !(c == '\'' || c == '\\' || c == '`' || c == '$' || c == '(' || c == ')' || c == ';'
            || c == '|' || c == '&' || c == '\n' || c == '\r') {
            out.push(c);
        }
        i = i + 1;
    }
    assert(v@.take(v@.len() as int) =~= v@);
    proof {
        assert forall|i: int| 0 <= i < out@.len() implies !shell_meta(#[trigger] out@[i]) by {
            v@.lemma_filter_pred(|c: char| !shell_meta(c), i);
        }
    }
    string_of(&out)
}

/// The characters an identifier keeps.
pub open spec fn identifier_char(c: char) -> bool {
    alphanumeric(c) || c == '_' || c == '-'
}

pub open spec fn identifier_chars(s: Seq<char>) -> Seq<char> {
    s.filter(|c: char| identifier_char(c))
}

/// The error text for a rejected identifier.
pub open spec fn invalid_identifier_message(input: Seq<char>) -> Seq<char> {
    "Invalid identifier: '"@ + input + "'"@
}

/// Cleans a configuration name, interface name or UCI section: keeps only
/// the alphanumeric characters, `_` and `-`; the result must be non-empty
/// and at most 64 bytes long.
pub fn sanitize_identifier(input: &str) -> (r: Result<String, String>)
    ensures
        ({
            let clean = identifier_chars(input@);
            match r {
                Ok(s) => s@ == clean && clean.len() > 0 && utf8_len(clean) <= 64,
                Err(e) => (clean.len() == 0 || utf8_len(clean) > 64) && e@
                    == invalid_identifier_message(input@),
            }
        }),
        forall|i: int|
            0 <= i < identifier_chars(input@).len() ==> identifier_char(
                #[trigger] identifier_chars(input@)[i],
            ),
{
    proof {
        assert forall|i: int| 0 <= i < identifier_chars(input@).len() implies identifier_char(
            #[trigger] identifier_chars(input@)[i],
        ) by {
            input@.lemma_filter_pred(|c: char| identifier_char(c), i);
        }
    }
    let v = chars_of(input);
    let mut out: Vec<char> = Vec::new();
    let mut i: usize = 0;
    while i < v.len()
        invariant
            i <= v.len(),
            out@ == identifier_chars(v@.take(i as int)),
        decreases v.len() - i,
    {
        let c = v[i];
        proof {
            assert(v@.take(i + 1).drop_last() =~= v@.take(i as int));
            reveal(Seq::filter);
        }
        if is_alphanumeric(c) || c == '_' || c == '-' {
            out.push(c);
        }
        i = i + 1;
    }
    assert(v@.take(v@.len() as int) =~= v@);
    assert(out@.subrange(0, out@.len() as int) =~= out@);
    if out.len() == 0 || utf8_len_exceeds(&out, out.len(), 64) {
        let a = concat_str("Invalid identifier: '", input);
        return Err(concat_str(a.as_str(), "'"));
    }
    Ok(string_of(&out))
}

/// Filtering a sequence whose elements all pass leaves it unchanged.
proof fn lemma_filter_keeps_all(s: Seq<char>, pred: spec_fn(char) -> bool)
    requires
        forall|i: int| 0 <= i < s.len() ==> pred(#[trigger] s[i]),
    ensures
        s.filter(pred) == s,
    decreases s.len(),
{
    reveal(Seq::filter);
    if s.len() > 0 {
        lemma_filter_keeps_all(s.drop_last(), pred);
        assert(s.drop_last().push(s.last()) =~= s);
    }
}

/// Sanitising for the shell is idempotent: a sanitised value passes through
/// `sanitize_shell` unchanged.
pub proof fn law_shell_safe_idempotent(s: Seq<char>)
    ensures
        shell_safe(shell_safe(s)) == shell_safe(s),
{
    let t = shell_safe(s);
    assert forall|i: int| 0 <= i < t.len() implies !shell_meta(#[trigger] t[i]) by {
        s.lemma_filter_pred(|c: char| !shell_meta(c), i);
    }
    lemma_filter_keeps_all(t, |c: char| !shell_meta(c));
}

/// A cleaned identifier is accepted again unchanged: `sanitize_identifier`
/// is idempotent on the names it accepts.
pub proof fn law_identifier_idempotent(s: Seq<char>)
    requires
        valid_identifier(s),
    ensures
        valid_identifier(identifier_chars(s)),
        identifier_chars(identifier_chars(s)) == identifier_chars(s),
{
    let t = identifier_chars(s);
    assert forall|i: int| 0 <= i < t.len() implies identifier_char(#[trigger] t[i]) by {
        s.lemma_filter_pred(|c: char| identifier_char(c), i);
    }
    lemma_filter_keeps_all(t, |c: char| identifier_char(c));
}

// ── ubus ──

/// A `ubus` JSON-RPC request.
pub struct UbusRequest {
    pub jsonrpc: &'static str,
    pub id: u32,
    pub method: &'static str,
    pub params: JsonValue,
}

impl UbusRequest {
    /// The `call` request for `service`/`method` with `args`, in `session`.
    pub fn call(session: &str, service: &str, method: &str, args: JsonValue) -> (r: Self)
        ensures
            r.jsonrpc@ == "2.0"@,
            r.id == 1,
            r.method@ == "call"@,
            r.params.items() matches Some(p) && p.len() == 4 && p[0].text() == Some(session@)
                && p[1].text() == Some(service@) && p[2].text() == Some(method@) && p[3] == args,
    {
        let mut params: Vec<JsonValue> = Vec::new();
        params.push(JsonValue::Str(String::from_str(session)));
        params.push(JsonValue::Str(String::from_str(service)));
        params.push(JsonValue::Str(String::from_str(method)));
        params.push(args);
        UbusRequest { jsonrpc: "2.0", id: 1, method: "call", params: JsonValue::Array(params) }
    }
}

/// A `ubus` JSON-RPC response.
pub struct UbusResponse {
    pub jsonrpc: String,
    pub id: u32,
    pub result: Option<JsonValue>,
    pub error: Option<JsonValue>,
}

/// The data part of a `ubus` result: `[0, data]` (status 0, at least two
/// elements) gives `data`; anything else gives nothing.
pub open spec fn ubus_data(result: Option<JsonValue>) -> Option<JsonValue> {
    match result {
        Some(r) => match r.items() {
            Some(a) => if a.len() >= 2 && a[0].signed() == Some(0i64) {
                Some(a[1])
            } else {
                None
            },
            None => None,
        },
        None => None,
    }
}

impl UbusResponse {
    /// A successful response whose result is `[0, data]`.
    pub fn with_data(data: JsonValue) -> (r: Self)
        ensures
            ubus_data(r.result) == Some(data),
            r.jsonrpc@ == "2.0"@,
            r.id == 1,
            r.error is None,
    {
        let mut result: Vec<JsonValue> = Vec::new();
        result.push(JsonValue::UInt(0));
        result.push(data);
        UbusResponse {
            jsonrpc: String::from_str("2.0"),
            id: 1,
            result: Some(JsonValue::Array(result)),
            error: None,
        }
    }

    /// The data object of the result.
    pub fn data(&self) -> (r: Option<&JsonValue>)
        ensures
            match r {
                Some(d) => ubus_data(self.result) == Some(*d),
                None => ubus_data(self.result) is None,
            },
    {
        match &self.result {
            Some(res) => match res.as_array() {
                Some(arr) => {
                    if arr.len() >= 2 && arr[0].as_i64() == Some(0i64) {
                        Some(&arr[1])
                    } else {
                        None
                    }
                },
                None => None,
            },
            None => None,
        }
    }

    pub fn is_ok(&self) -> (r: bool)
        ensures
            r == ubus_data(self.result) is Some,
    {
        self.data().is_some()
    }
}

/// Number of bytes of a `ubus` output quoted in a parse error.
pub open spec fn quoted_len(n: nat) -> nat {
    if n < 200 {
        n
    } else {
        200
    }
}

/// The response for what a `ubus call` printed. An empty output (after
/// trimming) stands for an empty data object; otherwise `parsed` is the
/// output parsed as JSON, and a parse error is reported with the first
/// 200 bytes of the output.
pub fn ubus_response(output: &str, parsed: Result<JsonValue, String>) -> (r: Result<
    UbusResponse,
    String,
>)
    requires
        output.spec_bytes().len() <= usize::MAX,
        trim(output@).len() > 0 && parsed is Err && output.len() > 200
            ==> is_char_boundary(output.spec_bytes(), 200),
    ensures
        trim(output@).len() == 0 ==> (r matches Ok(resp) && ubus_data(resp.result) matches Some(
            JsonValue::Object(e),
        ) && e@.len() == 0),
        trim(output@).len() > 0 ==> match parsed {
            Ok(d) => r matches Ok(resp) && ubus_data(resp.result) == Some(d),
            Err(err) => r matches Err(m) && exists|head: Seq<char>|
                encode_utf8(head) == output.spec_bytes().take(quoted_len(output.len() as nat) as int)
                    && m@ == "JSON parse error: "@ + err@ + " (output: "@ + head + ")"@,
        },
{
    let t = trim_str(output);
    if t.as_str().is_empty() {
        let empty: Vec<(String, JsonValue)> = Vec::new();
        return Ok(UbusResponse::with_data(JsonValue::Object(empty)));
    }
    match parsed {
        Ok(d) => Ok(UbusResponse::with_data(d)),
        Err(err) => {
            let head: &str = if output.len() <= 200 {
                assert(output.spec_bytes().take(output.spec_bytes().len() as int)
                    =~= output.spec_bytes());
                assert(encode_utf8(output@) == output.spec_bytes());
                output
            } else {
                let (h, _) = output.split_at(200);
                assert(encode_utf8(h@) == h.spec_bytes());
                assert(h.spec_bytes() =~= output.spec_bytes().take(200));
                h
            };
            let mut m = String::from_str("JSON parse error: ");
            m.append(err.as_str());
            m.append(" (output: ");
            m.append(head);
            m.append(")");
            assert(encode_utf8(head@) == output.spec_bytes().take(
                quoted_len(output.len() as nat) as int,
            ));
            Err(m)
        },
    }
}

// ── WiFi scan ──

/// What a network in a scan result shows.
pub struct NetworkView {
    pub ssid: Seq<char>,
    pub bssid: Seq<char>,
    pub signal: i32,
    pub encryption: Seq<char>,
    pub channel: u32,
}

impl View for WifiNetwork {
    type V = NetworkView;

    open spec fn view(&self) -> NetworkView {
        NetworkView {
            ssid: self.ssid@,
            bssid: self.bssid@,
            signal: self.signal,
            encryption: self.encryption@,
            channel: self.channel,
        }
    }
}

pub open spec fn or_empty(t: Option<Seq<char>>) -> Seq<char> {
    match t {
        Some(s) => s,
        None => Seq::<char>::empty(),
    }
}

/// The network that one entry of a scan result describes.
pub open spec fn network_of(item: JsonValue) -> NetworkView {
    NetworkView {
        ssid: or_empty(text_of(item.member("ssid"@))),
        bssid: or_empty(text_of(item.member("bssid"@))),
        signal: match signed_of(item.member("signal"@)) {
            Some(n) => n as i32,
            None => 0i32,
        },
        encryption: match text_of(item.member("encryption"@)) {
            Some(t) => t,
            None => match text_of(item.member("security"@)) {
                Some(t) => t,
                None => "unknown"@,
            },
        },
        channel: match unsigned_of(item.member("channel"@)) {
            Some(n) => n as u32,
            None => 0u32,
        },
    }
}

pub open spec fn networks_of(items: Seq<JsonValue>) -> Seq<NetworkView> {
    items.map_values(|j: JsonValue| network_of(j))
}

pub open spec fn network_views(v: Seq<WifiNetwork>) -> Seq<NetworkView> {
    v.map_values(|n: WifiNetwork| n@)
}

/// The entries of a scan result: its `list`, else its `results`, else the
/// data itself when it is an array.
pub open spec fn scan_items(data: JsonValue) -> Seq<JsonValue> {
    match items_of(data.member("list"@)) {
        Some(a) => a,
        None => match items_of(data.member("results"@)) {
            Some(a) => a,
            None => match data.items() {
                Some(a) => a,
                None => Seq::<JsonValue>::empty(),
            },
        },
    }
}

/// Where `x` goes in `sorted`: after every network at least as strong.
pub open spec fn insert_pos(sorted: Seq<NetworkView>, x: NetworkView) -> int
    decreases sorted.len(),
{
    if sorted.len() == 0 {
        0
    } else if sorted[0].signal >= x.signal {
        1 + insert_pos(sorted.drop_first(), x)
    } else {
        0
    }
}

/// `s` ordered by signal strength, strongest first; networks of equal
/// strength keep their order.
pub open spec fn by_signal(s: Seq<NetworkView>) -> Seq<NetworkView>
    decreases s.len(),
{
    if s.len() == 0 {
        s
    } else {
        let r = by_signal(s.drop_last());
        r.insert(insert_pos(r, s.last()), s.last())
    }
}

pub open spec fn strongest_first(s: Seq<NetworkView>) -> bool {
    forall|i: int, j: int| 0 <= i < j < s.len() ==> s[i].signal >= s[j].signal
}

proof fn lemma_insert_pos(sorted: Seq<NetworkView>, x: NetworkView)
    ensures
        0 <= insert_pos(sorted, x) <= sorted.len(),
        forall|k: int| 0 <= k < insert_pos(sorted, x) ==> sorted[k].signal >= x.signal,
        insert_pos(sorted, x) < sorted.len() ==> sorted[insert_pos(sorted, x)].signal < x.signal,
    decreases sorted.len(),
{
    if sorted.len() > 0 && sorted[0].signal >= x.signal {
        lemma_insert_pos(sorted.drop_first(), x);
        assert forall|k: int| 0 <= k < insert_pos(sorted, x) implies sorted[k].signal
            >= x.signal by {
            if k > 0 {
                assert(sorted[k] == sorted.drop_first()[k - 1]);
            }
        }
    }
}

proof fn lemma_insert_pos_at(sorted: Seq<NetworkView>, x: NetworkView, k: int)
    requires
        0 <= k <= sorted.len(),
        forall|j: int| 0 <= j < k ==> sorted[j].signal >= x.signal,
        k < sorted.len() ==> sorted[k].signal < x.signal,
    ensures
        insert_pos(sorted, x) == k,
    decreases k,
{
    if k > 0 {
        let t = sorted.drop_first();
        assert forall|j: int| 0 <= j < k - 1 implies t[j].signal >= x.signal by {
            assert(t[j] == sorted[j + 1]);
        }
        if k - 1 < t.len() {
            assert(t[k - 1] == sorted[k]);
        }
        lemma_insert_pos_at(t, x, k - 1);
    }
}

/// The scan order is strongest first and neither drops nor adds a network.
pub proof fn law_scan_order_sorted_permutation(s: Seq<NetworkView>)
    ensures
        by_signal(s).len() == s.len(),
        strongest_first(by_signal(s)),
        by_signal(s).to_multiset() == s.to_multiset(),
    decreases s.len(),
{
    if s.len() > 0 {
        let r = by_signal(s.drop_last());
        let x = s.last();
        law_scan_order_sorted_permutation(s.drop_last());
        lemma_insert_pos(r, x);
        let p = insert_pos(r, x);
        let out = r.insert(p, x);
        assert forall|i: int, j: int| 0 <= i < j < out.len() implies out[i].signal
            >= out[j].signal by {
            if j < p {
            } else if j == p {
            } else if i < p {
                assert(r[i].signal >= r[j - 1].signal);
            } else if i == p {
                assert(r[p].signal >= r[j - 1].signal);
            } else {
                assert(r[i - 1].signal >= r[j - 1].signal);
            }
        }
        vstd::seq_lib::to_multiset_insert(r, p, x);
        vstd::seq_lib::to_multiset_build(s.drop_last(), x);
        assert(s.drop_last().push(x) =~= s);
    }
}

/// The networks of `s` whose signal is `v`, in their order in `s`.
pub open spec fn with_signal(s: Seq<NetworkView>, v: i32) -> Seq<NetworkView> {
    s.filter(|n: NetworkView| n.signal == v)
}

proof fn lemma_with_signal_none(s: Seq<NetworkView>, v: i32)
    requires
        forall|k: int| 0 <= k < s.len() ==> s[k].signal < v,
    ensures
        with_signal(s, v) == Seq::<NetworkView>::empty(),
    decreases s.len(),
{
    reveal(Seq::filter);
    if s.len() > 0 {
        lemma_with_signal_none(s.drop_last(), v);
    }
}

/// Networks of equal signal strength keep the order of the scan result.
pub proof fn law_scan_order_stable(s: Seq<NetworkView>, v: i32)
    ensures
        with_signal(by_signal(s), v) == with_signal(s, v),
    decreases s.len(),
{
    if s.len() > 0 {
        let init = s.drop_last();
        let x = s.last();
        let r = by_signal(init);
        law_scan_order_stable(init, v);
        law_scan_order_sorted_permutation(init);
        lemma_insert_pos(r, x);
        let p = insert_pos(r, x);
        let head = r.subrange(0, p);
        let tail = r.subrange(p, r.len() as int);
        let pred = |n: NetworkView| n.signal == v;
        assert(r.insert(p, x) == head.push(x) + tail);
        assert(r =~= head + tail);
        Seq::filter_distributes_over_add(head.push(x), tail, pred);
        Seq::filter_distributes_over_add(head, tail, pred);
        assert(head.push(x).drop_last() =~= head);
        assert(s =~= init.push(x));
        reveal(Seq::filter);
        if x.signal == v {
            assert forall|k: int| 0 <= k < tail.len() implies tail[k].signal < v by {
                assert(tail[k] == r[p + k]);
                if k > 0 {
                    assert(r[p].signal >= r[p + k].signal);
                }
            }
            lemma_with_signal_none(tail, v);
            assert(with_signal(head, v) + Seq::<NetworkView>::empty() =~= with_signal(head, v));
            assert(with_signal(head.push(x), v) + Seq::<NetworkView>::empty() =~= with_signal(head.push(x), v));
        }
    }
}

/// One scanned network.
fn network_from(item: &JsonValue) -> (n: WifiNetwork)
    ensures
        n@ == network_of(*item),
{
    let ssid = match member_str(item, "ssid") {
        Some(t) => String::from_str(t),
        None => String::new(),
    };
    let bssid = match member_str(item, "bssid") {
        Some(t) => String::from_str(t),
        None => String::new(),
    };
    let signal: i32 = match member_i64(item, "signal") {
        Some(v) => v as i32,
        None => 0,
    };
    let encryption = match member_str(item, "encryption") {
        Some(t) => String::from_str(t),
        None => match member_str(item, "security") {
            Some(t) => String::from_str(t),
            None => String::from_str("unknown"),
        },
    };
    let channel: u32 = match member_u64(item, "channel") {
        Some(v) => v as u32,
        None => 0,
    };
    WifiNetwork { ssid, bssid, signal, encryption, channel }
}

/// The networks of a repeater scan, strongest signal first.
pub fn scan_networks(data: &JsonValue) -> (r: Vec<WifiNetwork>)
    ensures
        network_views(r@) == by_signal(networks_of(scan_items(*data))),
{
    let items: &Vec<JsonValue> = match member_array(data, "list") {
        Some(a) => a,
        None => match member_array(data, "results") {
            Some(a) => a,
            None => match data.as_array() {
                Some(a) => a,
                None => {
                    let empty: Vec<WifiNetwork> = Vec::new();
                    assert(networks_of(scan_items(*data)) =~= Seq::<NetworkView>::empty());
                    assert(network_views(empty@) =~= Seq::<NetworkView>::empty());
                    return empty;
                },
            },
        },
    };
    let ghost all = networks_of(items@);
    assert(items@ == scan_items(*data));
    let mut out: Vec<WifiNetwork> = Vec::new();
    let mut i: usize = 0;
    assert(network_views(out@) =~= by_signal(all.take(0)));
    while i < items.len()
        invariant
            i <= items.len(),
            all == networks_of(items@),
            network_views(out@) == by_signal(all.take(i as int)),
        decreases items.len() - i,
    {
        let net = network_from(&items[i]);
        let ghost sorted = network_views(out@);
        let mut k: usize = 0;
        while k < out.len() && out[k].signal >= net.signal
            invariant
                k <= out.len(),
                sorted == network_views(out@),
                forall|j: int| 0 <= j < k ==> sorted[j].signal >= net@.signal,
            decreases out.len() - k,
        {
            k = k + 1;
        }
        proof {
            lemma_insert_pos_at(sorted, net@, k as int);
            assert(all.take(i + 1).drop_last() =~= all.take(i as int));
            assert(all.take(i + 1).last() == net@);
        }
        out.insert(k, net);
        assert(network_views(out@) =~= sorted.insert(k as int, all[i as int]));
        i = i + 1;
    }
    assert(all.take(items.len() as int) =~= all);
    out
}

// ── Status ──

/// What the interface dump decides of a status.
pub struct LinkView {
    pub wan_connected: bool,
    pub wan_type: Seq<char>,
    pub wan_ip: Seq<char>,
    pub vpn_connected: bool,
    pub server_name: Seq<char>,
}

pub open spec fn link_view(st: RouterStatus) -> LinkView {
    LinkView {
        wan_connected: st.wan.connected,
        wan_type: st.wan.wan_type@,
        wan_ip: st.wan.ip@,
        vpn_connected: st.vpn.connected,
        server_name: st.vpn.server_name@,
    }
}

pub open spec fn iface_name(iface: JsonValue) -> Seq<char> {
    or_empty(text_of(iface.member("interface"@)))
}

pub open spec fn iface_up(iface: JsonValue) -> bool {
    flag_of(iface.member("up"@)) == Some(true)
}

/// The address of the first IPv4 entry of `iface`, if it lists one.
pub open spec fn first_address(iface: JsonValue, old_ip: Seq<char>) -> Seq<char> {
    match items_of(iface.member("ipv4-address"@)) {
        Some(a) => if a.len() > 0 {
            or_empty(text_of(a[0].member("address"@)))
        } else {
            old_ip
        },
        None => old_ip,
    }
}

/// The name shown for a WireGuard interface `wg_...`: `DE-...`.
pub open spec fn vpn_display_name(name: Seq<char>) -> Seq<char> {
    replace(name, "wg_"@, "DE-"@)
}

/// What one interface of the dump changes: an up `wan` is an ethernet
/// uplink (with its first IPv4 address), an up `wwan` a repeater uplink,
/// and an up `wg_...` interface the active VPN.
pub open spec fn link_step(st: LinkView, iface: JsonValue) -> LinkView {
    let name = iface_name(iface);
    let up = iface_up(iface);
    let a = if name == "wan"@ && up {
        LinkView {
            wan_connected: true,
            wan_type: "ethernet"@,
            wan_ip: first_address(iface, st.wan_ip),
            vpn_connected: st.vpn_connected,
            server_name: st.server_name,
        }
    } else {
        st
    };
    let b = if name == "wwan"@ && up {
        LinkView {
            wan_connected: true,
            wan_type: "repeater"@,
            wan_ip: a.wan_ip,
            vpn_connected: a.vpn_connected,
            server_name: a.server_name,
        }
    } else {
        a
    };
    if starts_with(name, "wg_"@) && up {
        LinkView {
            wan_connected: b.wan_connected,
            wan_type: b.wan_type,
            wan_ip: b.wan_ip,
            vpn_connected: true,
            server_name: vpn_display_name(name),
        }
    } else {
        b
    }
}

/// The effect of the interfaces `ifaces`, taken in order.
pub open spec fn links_after(st: LinkView, ifaces: Seq<JsonValue>) -> LinkView
    decreases ifaces.len(),
{
    if ifaces.len() == 0 {
        st
    } else {
        link_step(links_after(st, ifaces.drop_last()), ifaces.last())
    }
}

/// The interfaces of a `network.interface dump`.
pub open spec fn dump_interfaces(data: JsonValue) -> Seq<JsonValue> {
    match items_of(data.member("interface"@)) {
        Some(a) => a,
        None => Seq::<JsonValue>::empty(),
    }
}

pub open spec fn same_except_links(a: RouterStatus, b: RouterStatus) -> bool {
    &&& a.vpn.public_ip@ == b.vpn.public_ip@
    &&& a.vpn.country@ == b.vpn.country@
    &&& a.wifi_ap.ssid@ == b.wifi_ap.ssid@
    &&& a.wifi_ap.clients == b.wifi_ap.clients
    &&& a.system.uptime == b.system.uptime
    &&& a.system.memory_used_pct == b.system.memory_used_pct
    &&& a.traffic.rx_bytes == b.traffic.rx_bytes
    &&& a.traffic.tx_bytes == b.traffic.tx_bytes
    &&& a.traffic.rx_formatted@ == b.traffic.rx_formatted@
    &&& a.traffic.tx_formatted@ == b.traffic.tx_formatted@
    &&& a.traffic.total_formatted@ == b.traffic.total_formatted@
}

fn text_or_empty(t: Option<&str>) -> (r: String)
    ensures
        r@ == match t {
            Some(s) => s@,
            None => Seq::<char>::empty(),
        },
{
    match t {
        Some(s) => String::from_str(s),
        None => String::new(),
    }
}

/// Applies the interfaces of a `network.interface dump` to `status`.
pub fn apply_interfaces(status: &mut RouterStatus, data: &JsonValue)
    ensures
        link_view(*final(status)) == links_after(link_view(*old(status)), dump_interfaces(*data)),
        same_except_links(*final(status), *old(status)),
{
    let ghost start = link_view(*status);
    let empty: Vec<JsonValue> = Vec::new();
    let ifaces: &Vec<JsonValue> = match member_array(data, "interface") {
        Some(a) => a,
        None => {
            assert(dump_interfaces(*data) =~= Seq::<JsonValue>::empty());
            return;
        },
    };
    let mut i: usize = 0;
    assert(ifaces@.take(0) =~= Seq::<JsonValue>::empty());
    while i < ifaces.len()
        invariant
            i <= ifaces.len(),
            ifaces@ == dump_interfaces(*data),
            link_view(*status) == links_after(start, ifaces@.take(i as int)),
            same_except_links(*status, *old(status)),
        decreases ifaces.len() - i,
    {
        let iface = &ifaces[i];
        let ghost before = link_view(*status);
        let name: &str = match member_str(iface, "interface") {
            Some(n) => n,
            None => "",
        };
        proof {
            reveal_strlit("");
            assert(name@ == iface_name(*iface));
        }
        let up = match member_bool(iface, "up") {
            Some(b) => b,
            None => false,
        };
        if str_eq(name, "wan") && up {
            status.wan.connected = true;
            status.wan.wan_type = String::from_str("ethernet");
            match member_array(iface, "ipv4-address") {
                Some(addrs) => {
                    if addrs.len() > 0 {
                        status.wan.ip = text_or_empty(member_str(&addrs[0], "address"));
                    }
                },
                None => {},
            }
        }
        if str_eq(name, "wwan") && up {
            status.wan.connected = true;
            status.wan.wan_type = String::from_str("repeater");
        }
        if starts_with_str(name, "wg_") && up {
            status.vpn.connected = true;
            proof {
                reveal_strlit("wg_");
            }
            status.vpn.server_name = str_replace(name, "wg_", "DE-");
        }
        proof {
            assert(ifaces@.take(i + 1).drop_last() =~= ifaces@.take(i as int));
            assert(link_view(*status) == link_step(before, *iface));
        }
        i = i + 1;
    }
    assert(ifaces@.take(ifaces@.len() as int) =~= ifaces@);
}

/// Whether `s` starts with `p`.
fn starts_with_str(s: &str, p: &str) -> (r: bool)
    ensures
        r == starts_with(s@, p@),
{
    let sv = chars_of(s);
    let pv = chars_of(p);
    starts_with_exec(&sv, &pv)
}

/// `iface` is an up WireGuard interface.
pub open spec fn vpn_up(iface: JsonValue) -> bool {
    starts_with(iface_name(iface), "wg_"@) && iface_up(iface)
}

proof fn lemma_link_step_vpn(st: LinkView, iface: JsonValue)
    ensures
        link_step(st, iface).vpn_connected == (st.vpn_connected || vpn_up(iface)),
        link_step(st, iface).server_name == if vpn_up(iface) {
            vpn_display_name(iface_name(iface))
        } else {
            st.server_name
        },
{
}

/// The VPN is reported connected exactly when it already was or some
/// WireGuard interface of the dump is up.
pub proof fn law_vpn_connected_iff_wireguard_up(st: LinkView, ifaces: Seq<JsonValue>)
    ensures
        links_after(st, ifaces).vpn_connected == (st.vpn_connected || exists|i: int|
            0 <= i < ifaces.len() && vpn_up(#[trigger] ifaces[i])),
    decreases ifaces.len(),
{
    if ifaces.len() > 0 {
        let init = ifaces.drop_last();
        law_vpn_connected_iff_wireguard_up(st, init);
        lemma_link_step_vpn(links_after(st, init), ifaces.last());
        if exists|i: int| 0 <= i < init.len() && vpn_up(#[trigger] init[i]) {
            let k = choose|k: int| 0 <= k < init.len() && vpn_up(#[trigger] init[k]);
            assert(ifaces[k] == init[k]);
        }
        if exists|i: int| 0 <= i < ifaces.len() && vpn_up(#[trigger] ifaces[i]) {
            let k = choose|k: int| 0 <= k < ifaces.len() && vpn_up(#[trigger] ifaces[k]);
            if k < init.len() {
                assert(init[k] == ifaces[k]);
            }
        }
    }
}

/// The server shown is the one of the last up WireGuard interface.
pub proof fn law_vpn_server_is_last_wireguard(st: LinkView, ifaces: Seq<JsonValue>, i: int)
    requires
        0 <= i < ifaces.len(),
        vpn_up(ifaces[i]),
        forall|j: int| i < j < ifaces.len() ==> !vpn_up(#[trigger] ifaces[j]),
    ensures
        links_after(st, ifaces).server_name == vpn_display_name(iface_name(ifaces[i])),
    decreases ifaces.len(),
{
    let init = ifaces.drop_last();
    lemma_link_step_vpn(links_after(st, init), ifaces.last());
    if i < ifaces.len() - 1 {
        assert(!vpn_up(ifaces[ifaces.len() - 1]));
        assert forall|j: int| i < j < init.len() implies !vpn_up(#[trigger] init[j]) by {
            assert(init[j] == ifaces[j]);
        }
        assert(init[i] == ifaces[i]);
        law_vpn_server_is_last_wireguard(st, init, i);
    }
}

/// `iface` is an up uplink: the `wan` cable or the `wwan` repeater.
pub open spec fn uplink_up(iface: JsonValue) -> bool {
    (iface_name(iface) == "wan"@ || iface_name(iface) == "wwan"@) && iface_up(iface)
}

/// The uplink type that an up uplink interface stands for.
pub open spec fn uplink_kind(iface: JsonValue) -> Seq<char> {
    if iface_name(iface) == "wwan"@ {
        "repeater"@
    } else {
        "ethernet"@
    }
}

proof fn lemma_link_step_uplink(st: LinkView, iface: JsonValue)
    ensures
        link_step(st, iface).wan_connected == (st.wan_connected || uplink_up(iface)),
        link_step(st, iface).wan_type == if uplink_up(iface) {
            uplink_kind(iface)
        } else {
            st.wan_type
        },
{
    reveal_strlit("wan");
    reveal_strlit("wwan");
}

/// The uplink is reported connected exactly when it already was or some
/// `wan` or `wwan` interface of the dump is up.
pub proof fn law_uplink_connected_iff_wan_or_wwan_up(st: LinkView, ifaces: Seq<JsonValue>)
    ensures
        links_after(st, ifaces).wan_connected == (st.wan_connected || exists|i: int|
            0 <= i < ifaces.len() && uplink_up(#[trigger] ifaces[i])),
    decreases ifaces.len(),
{
    if ifaces.len() > 0 {
        let init = ifaces.drop_last();
        law_uplink_connected_iff_wan_or_wwan_up(st, init);
        lemma_link_step_uplink(links_after(st, init), ifaces.last());
        if exists|i: int| 0 <= i < init.len() && uplink_up(#[trigger] init[i]) {
            let k = choose|k: int| 0 <= k < init.len() && uplink_up(#[trigger] init[k]);
            assert(ifaces[k] == init[k]);
        }
        if exists|i: int| 0 <= i < ifaces.len() && uplink_up(#[trigger] ifaces[i]) {
            let k = choose|k: int| 0 <= k < ifaces.len() && uplink_up(#[trigger] ifaces[k]);
            if k < init.len() {
                assert(init[k] == ifaces[k]);
            }
        }
    }
}

/// The uplink type shown is that of the last up uplink interface:
/// `repeater` for `wwan`, `ethernet` for `wan`.
pub proof fn law_uplink_type_is_last_uplink(st: LinkView, ifaces: Seq<JsonValue>, i: int)
    requires
        0 <= i < ifaces.len(),
        uplink_up(ifaces[i]),
        forall|j: int| i < j < ifaces.len() ==> !uplink_up(#[trigger] ifaces[j]),
    ensures
        links_after(st, ifaces).wan_type == uplink_kind(ifaces[i]),
        links_after(st, ifaces).wan_connected,
    decreases ifaces.len(),
{
    let init = ifaces.drop_last();
    lemma_link_step_uplink(links_after(st, init), ifaces.last());
    if i < ifaces.len() - 1 {
        assert(!uplink_up(ifaces[ifaces.len() - 1]));
        assert forall|j: int| i < j < init.len() implies !uplink_up(#[trigger] init[j]) by {
            assert(init[j] == ifaces[j]);
        }
        assert(init[i] == ifaces[i]);
        law_uplink_type_is_last_uplink(st, init, i);
    }
}

/// The memory of a `system info` reply: total, free and buffered bytes
/// (missing numbers count as 1, 0 and 0).
pub open spec fn memory_numbers(data: JsonValue) -> Option<(u64, u64, u64)> {
    match members_of(data.member("memory"@)) {
        Some(_) => {
            let mem = data.member("memory"@);
            Some(
                (
                    match unsigned_of(member_of(mem, "total"@)) {
                        Some(n) => n,
                        None => 1u64,
                    },
                    match unsigned_of(member_of(mem, "free"@)) {
                        Some(n) => n,
                        None => 0u64,
                    },
                    match unsigned_of(member_of(mem, "buffered"@)) {
                        Some(n) => n,
                        None => 0u64,
                    },
                ),
            )
        },
        None => None,
    }
}

/// Used memory: total minus free minus buffers, never below zero.
pub open spec fn memory_used(total: u64, free: u64, buffered: u64) -> int {
    let a = if total >= free {
        total - free
    } else {
        0
    };
    if a >= buffered {
        a - buffered
    } else {
        0
    }
}

/// A `system info` reply whose memory numbers can be turned into a
/// percentage (the total is not zero).
pub open spec fn memory_computable(data: JsonValue) -> bool {
    match memory_numbers(data) {
        Some((total, free, buffered)) => total != 0 && memory_used(total, free, buffered) * 100
            <= u64::MAX,
        None => true,
    }
}

/// Percentage of used memory, rounded down.
pub fn memory_used_pct(total: u64, free: u64, buffered: u64) -> (r: u32)
    requires
        total != 0,
        memory_used(total, free, buffered) * 100 <= u64::MAX,
    ensures
        r == memory_used(total, free, buffered) * 100 / (total as int),
        r <= 100,
{
    let used = total.saturating_sub(free).saturating_sub(buffered);
    assert(used <= total);
    let scaled = used * 100;
    assert(scaled / total <= 100) by (nonlinear_arith)
        requires
            scaled == used * 100,
            used <= total,
            total > 0,
    ;
    (scaled / total) as u32
}

/// Applies a `system info` reply: uptime and memory use.
pub fn apply_system_info(status: &mut RouterStatus, data: &JsonValue)
    requires
        memory_computable(*data),
    ensures
        final(status).system.uptime == match unsigned_of(data.member("uptime"@)) {
            Some(n) => n,
            None => 0u64,
        },
        final(status).system.memory_used_pct == match memory_numbers(*data) {
            Some((total, free, buffered)) => (memory_used(total, free, buffered) * 100 / (
            total as int)) as u32,
            None => old(status).system.memory_used_pct,
        },
        link_view(*final(status)) == link_view(*old(status)),
        final(status).vpn.public_ip@ == old(status).vpn.public_ip@,
        final(status).vpn.country@ == old(status).vpn.country@,
        final(status).wifi_ap.ssid@ == old(status).wifi_ap.ssid@,
        final(status).wifi_ap.clients == old(status).wifi_ap.clients,
        final(status).traffic.rx_bytes == old(status).traffic.rx_bytes,
        final(status).traffic.tx_bytes == old(status).traffic.tx_bytes,
{
    status.system.uptime = match member_u64(data, "uptime") {
        Some(n) => n,
        None => 0,
    };
    match data.get("memory") {
        Some(mem) => {
            if mem.as_object().is_some() {
                let total = match member_u64(mem, "total") {
                    Some(n) => n,
                    None => 1,
                };
                let free = match member_u64(mem, "free") {
                    Some(n) => n,
                    None => 0,
                };
                let buffered = match member_u64(mem, "buffered") {
                    Some(n) => n,
                    None => 0,
                };
                status.system.memory_used_pct = memory_used_pct(total, free, buffered);
            }
        },
        None => {},
    }
}

/// Whether the memory numbers of a `system info` reply give a percentage
/// (the total is not zero and the used share does not overflow).
pub fn system_info_fits(data: &JsonValue) -> (r: bool)
    ensures
        r == memory_computable(*data),
{
    match data.get("memory") {
        Some(mem) => {
            if mem.as_object().is_some() {
                let total = match member_u64(mem, "total") {
                    Some(n) => n,
                    None => 1,
                };
                let free = match member_u64(mem, "free") {
                    Some(n) => n,
                    None => 0,
                };
                let buffered = match member_u64(mem, "buffered") {
                    Some(n) => n,
                    None => 0,
                };
                let used = total.saturating_sub(free).saturating_sub(buffered);
                total != 0 && used <= u64::MAX / 100
            } else {
                true
            }
        },
        None => true,
    }
}

/// Applies a `get_clients` reply: the number of associated clients.
pub fn apply_clients(status: &mut RouterStatus, data: &JsonValue)
    ensures
        final(status).wifi_ap.clients == match members_of(data.member("clients"@)) {
            Some(c) => c.len() as u32,
            None => old(status).wifi_ap.clients,
        },
        link_view(*final(status)) == link_view(*old(status)),
        final(status).vpn.public_ip@ == old(status).vpn.public_ip@,
        final(status).vpn.country@ == old(status).vpn.country@,
        final(status).wifi_ap.ssid@ == old(status).wifi_ap.ssid@,
        final(status).system.uptime == old(status).system.uptime,
        final(status).system.memory_used_pct == old(status).system.memory_used_pct,
        final(status).traffic.rx_bytes == old(status).traffic.rx_bytes,
        final(status).traffic.tx_bytes == old(status).traffic.tx_bytes,
{
    match member_object(data, "clients") {
        Some(c) => {
            status.wifi_ap.clients = c.len() as u32;
        },
        None => {},
    }
}

/// The byte count in column `k` of a line of `wg show all transfer`
/// (tab-separated: interface, peer, received, sent); lines with fewer than
/// four columns and numbers that do not parse count as 0.
pub open spec fn transfer_field(line: Seq<char>, k: int) -> nat {
    let parts = split_on(line, '\t');
    if parts.len() >= 4 {
        match parse_unsigned(trim(parts[k]), u64::MAX as nat) {
            Some(n) => n,
            None => 0,
        }
    } else {
        0
    }
}

pub open spec fn transfer_sum(ls: Seq<Seq<char>>, k: int) -> nat
    decreases ls.len(),
{
    if ls.len() == 0 {
        0
    } else {
        transfer_sum(ls.drop_last(), k) + transfer_field(ls.last(), k)
    }
}

proof fn lemma_transfer_sum_prefix(ls: Seq<Seq<char>>, k: int, i: int)
    requires
        0 <= i <= ls.len(),
    ensures
        transfer_sum(ls.take(i), k) <= transfer_sum(ls, k),
    decreases ls.len() - i,
{
    if i < ls.len() {
        lemma_transfer_sum_prefix(ls, k, i + 1);
        assert(ls.take(i + 1).drop_last() =~= ls.take(i));
    } else {
        assert(ls.take(i) =~= ls);
    }
}

fn transfer_field_exec(line: &Vec<char>, k: usize) -> (r: u64)
    requires
        k < 4,
    ensures
        r == transfer_field(line@, k as int),
{
    let parts = split_char(line, '\t');
    if parts.len() >= 4 {
        let (lo, hi) = trim_bounds(&parts[k]);
        let t = slice_chars(&parts[k], lo, hi);
        match parse_unsigned_exec(&t, u64::MAX) {
            Some(n) => n,
            None => 0,
        }
    } else {
        0
    }
}

/// Received and sent bytes summed over the peers listed by
/// `wg show all transfer`.
pub fn transfer_totals(output: &str) -> (r: (u64, u64))
    requires
        transfer_sum(lines(output@), 2) <= u64::MAX,
        transfer_sum(lines(output@), 3) <= u64::MAX,
    ensures
        r.0 == transfer_sum(lines(output@), 2),
        r.1 == transfer_sum(lines(output@), 3),
{
    let v = chars_of(output);
    let ls = lines_of(&v);
    let ghost lv = lines(output@);
    let mut rx: u64 = 0;
    let mut tx: u64 = 0;
    let mut i: usize = 0;
    while i < ls.len()
        invariant
            i <= ls.len(),
            ls@.len() == lv.len(),
            forall|j: int| 0 <= j < ls@.len() ==> #[trigger] ls@[j]@ == lv[j],
            transfer_sum(lv, 2) <= u64::MAX,
            transfer_sum(lv, 3) <= u64::MAX,
            rx == transfer_sum(lv.take(i as int), 2),
            tx == transfer_sum(lv.take(i as int), 3),
        decreases ls.len() - i,
    {
        proof {
            assert(lv.take(i + 1).drop_last() =~= lv.take(i as int));
            lemma_transfer_sum_prefix(lv, 2, i + 1);
            lemma_transfer_sum_prefix(lv, 3, i + 1);
        }
        let a = transfer_field_exec(&ls[i], 2);
        let b = transfer_field_exec(&ls[i], 3);
        rx = rx + a;
        tx = tx + b;
        i = i + 1;
    }
    assert(lv.take(lv.len() as int) =~= lv);
    (rx, tx)
}

/// Whether the received and the sent totals of `wg show all transfer`
/// output fit in 64 bits.
pub fn transfer_fits(output: &str) -> (r: bool)
    ensures
        r == (transfer_sum(lines(output@), 2) <= u64::MAX && transfer_sum(lines(output@), 3)
            <= u64::MAX),
{
    let v = chars_of(output);
    let ls = lines_of(&v);
    let ghost lv = lines(output@);
    let mut rx: u64 = 0;
    let mut tx: u64 = 0;
    let mut i: usize = 0;
    while i < ls.len()
        invariant
            i <= ls.len(),
            ls@.len() == lv.len(),
            lv == lines(output@),
            forall|j: int| 0 <= j < ls@.len() ==> #[trigger] ls@[j]@ == lv[j],
            rx == transfer_sum(lv.take(i as int), 2),
            tx == transfer_sum(lv.take(i as int), 3),
        decreases ls.len() - i,
    {
        proof {
            assert(lv.take(i + 1).drop_last() =~= lv.take(i as int));
            lemma_transfer_sum_prefix(lv, 2, i + 1);
            lemma_transfer_sum_prefix(lv, 3, i + 1);
        }
        let a = transfer_field_exec(&ls[i], 2);
        let b = transfer_field_exec(&ls[i], 3);
        match (rx.checked_add(a), tx.checked_add(b)) {
            (Some(x), Some(y)) => {
                rx = x;
                tx = y;
            },
            _ => {
                return false;
            },
        }
        i = i + 1;
    }
    assert(lv.take(lv.len() as int) =~= lv);
    true
}

/// The link state of a fresh status: nothing connected.
pub open spec fn no_links() -> LinkView {
    LinkView {
        wan_connected: false,
        wan_type: Seq::<char>::empty(),
        wan_ip: Seq::<char>::empty(),
        vpn_connected: false,
        server_name: Seq::<char>::empty(),
    }
}

/// The router status from the replies of the status queries; a missing
/// reply (the query failed or returned no data) leaves its part at the
/// default. The public address and its country are filled in afterwards.
pub fn status_from_replies(
    interfaces: Option<&JsonValue>,
    system: Option<&JsonValue>,
    clients: Option<&JsonValue>,
    ssid_output: Option<&str>,
    transfer_output: Option<&str>,
) -> (r: RouterStatus)
    requires
        system matches Some(d) ==> memory_computable(*d),
        transfer_output matches Some(o) ==> transfer_sum(lines(o@), 2) <= u64::MAX
            && transfer_sum(lines(o@), 3) <= u64::MAX,
    ensures
        link_view(r) == match interfaces {
            Some(d) => links_after(no_links(), dump_interfaces(*d)),
            None => no_links(),
        },
        r.system.uptime == match system {
            Some(d) => match unsigned_of(d.member("uptime"@)) {
                Some(n) => n,
                None => 0u64,
            },
            None => 0u64,
        },
        r.system.memory_used_pct == match system {
            Some(d) => match memory_numbers(*d) {
                Some((total, free, buffered)) => (memory_used(total, free, buffered) * 100 / (
                total as int)) as u32,
                None => 0u32,
            },
            None => 0u32,
        },
        r.wifi_ap.clients == match clients {
            Some(d) => match members_of(d.member("clients"@)) {
                Some(c) => c.len() as u32,
                None => 0u32,
            },
            None => 0u32,
        },
        r.wifi_ap.ssid@ == match ssid_output {
            Some(o) => trim(o@),
            None => Seq::<char>::empty(),
        },
        r.traffic.rx_bytes == match transfer_output {
            Some(o) => transfer_sum(lines(o@), 2),
            None => 0,
        },
        r.traffic.tx_bytes == match transfer_output {
            Some(o) => transfer_sum(lines(o@), 3),
            None => 0,
        },
        r.vpn.public_ip@.len() == 0 && r.vpn.country@.len() == 0,
{
    let mut st = RouterStatus::default();
    assert(st.wan.wan_type@ =~= Seq::<char>::empty());
    assert(st.wan.ip@ =~= Seq::<char>::empty());
    assert(st.vpn.server_name@ =~= Seq::<char>::empty());
    assert(link_view(st) == no_links());
    match interfaces {
        Some(d) => apply_interfaces(&mut st, d),
        None => {},
    }
    match system {
        Some(d) => apply_system_info(&mut st, d),
        None => {},
    }
    match clients {
        Some(d) => apply_clients(&mut st, d),
        None => {},
    }
    match ssid_output {
        Some(o) => {
            st.wifi_ap.ssid = trim_str(o);
        },
        None => {},
    }
    match transfer_output {
        Some(o) => {
            let (rx, tx) = transfer_totals(o);
            st.traffic.rx_bytes = rx;
            st.traffic.tx_bytes = tx;
        },
        None => {},
    }
    st
}

/// The public address is looked up when the router has an uplink or a VPN.
pub fn needs_public_ip(status: &RouterStatus) -> (r: bool)
    ensures
        r == (status.wan.connected || status.vpn.connected),
{
    status.wan.connected || status.vpn.connected
}

/// Records the public address from an address-echo reply (`{"ip": ...}`).
pub fn apply_public_ip(status: &mut RouterStatus, data: &JsonValue)
    ensures
        final(status).vpn.public_ip@ == match text_of(data.member("ip"@)) {
            Some(t) => t,
            None => old(status).vpn.public_ip@,
        },
        final(status).vpn.country@ == old(status).vpn.country@,
        link_view(*final(status)) == link_view(*old(status)),
{
    match member_str(data, "ip") {
        Some(ip) => {
            status.vpn.public_ip = String::from_str(ip);
        },
        None => {},
    }
}

/// The geolocation query for the public address.
pub fn geo_url(public_ip: &str) -> (r: String)
    ensures
        r@ == "https://ipapi.co/"@ + public_ip@ + "/json/"@,
{
    let mut r = String::from_str("https://ipapi.co/");
    r.append(public_ip);
    r.append("/json/");
    r
}

/// Records the country of a geolocation reply (empty when it has none).
pub fn apply_country(status: &mut RouterStatus, data: &JsonValue)
    ensures
        final(status).vpn.country@ == or_empty(text_of(data.member("country_name"@))),
        final(status).vpn.public_ip@ == old(status).vpn.public_ip@,
        link_view(*final(status)) == link_view(*old(status)),
{
    status.vpn.country = text_or_empty(member_str(data, "country_name"));
}

// ── VPN servers ──

/// The interface names listed by `uci show network | grep wireguard | cut`:
/// the non-empty trimmed lines.
pub open spec fn listed_names(ls: Seq<Seq<char>>) -> Seq<Seq<char>>
    decreases ls.len(),
{
    if ls.len() == 0 {
        Seq::<Seq<char>>::empty()
    } else if trim(ls.last()).len() > 0 {
        listed_names(ls.drop_last()).push(trim(ls.last()))
    } else {
        listed_names(ls.drop_last())
    }
}

/// The WireGuard interface names in the output of the listing command.
pub fn wireguard_interface_names(output: &str) -> (r: Vec<String>)
    ensures
        string_views(r@) == listed_names(lines(output@)),
{
    let v = chars_of(output);
    let ls = lines_of(&v);
    let ghost lv = lines(output@);
    let mut out: Vec<String> = Vec::new();
    let mut i: usize = 0;
    assert(string_views(out@) =~= listed_names(lv.take(0)));
    while i < ls.len()
        invariant
            i <= ls.len(),
            ls@.len() == lv.len(),
            forall|j: int| 0 <= j < ls@.len() ==> #[trigger] ls@[j]@ == lv[j],
            string_views(out@) == listed_names(lv.take(i as int)),
        decreases ls.len() - i,
    {
        assert(lv.take(i + 1).drop_last() =~= lv.take(i as int));
        assert(lv.take(i + 1).last() == ls@[i as int]@);
        let (lo, hi) = trim_bounds(&ls[i]);
        if lo < hi {
            let name = string_of_range(&ls[i], lo, hi);
            out.push(name);
            assert(string_views(out@) =~= listed_names(lv.take(i as int)).push(
                trim(lv[i as int]),
            ));
        }
        i = i + 1;
    }
    assert(lv.take(lv.len() as int) =~= lv);
    out
}

/// The entry for the configured WireGuard interface `name`: shown as
/// `DE-...` with spaces for underscores, its city the rest of the name after
/// `wg_de_`.
pub fn vpn_server_entry(name: &str, active: bool) -> (r: VpnServer)
    ensures
        r.id@ == name@,
        r.name@ == replace(replace(name@, "wg_"@, "DE-"@), "_"@, " "@),
        r.city@ == replace(replace(name@, "wg_de_"@, ""@), "_"@, " "@),
        r.ip@.len() == 0,
        r.active == active,
{
    proof {
        reveal_strlit("wg_");
        reveal_strlit("wg_de_");
        reveal_strlit("_");
    }
    let shown = str_replace(name, "wg_", "DE-");
    let city = str_replace(name, "wg_de_", "");
    VpnServer {
        id: String::from_str(name),
        name: str_replace(shown.as_str(), "_", " "),
        city: str_replace(city.as_str(), "_", " "),
        ip: String::new(),
        active,
    }
}

/// Whether the interface status query printed `true` (after trimming).
pub fn reports_up(output: &str) -> (r: bool)
    ensures
        r == (trim(output@) == "true"@),
{
    let t = trim_str(output);
    str_eq(t.as_str(), "true")
}

// ── NordVPN servers ──

/// A WireGuard server chosen for deployment.
pub struct WgServerConfig {
    pub name: String,
    pub city: String,
    pub server_ip: String,
    pub public_key: String,
}

pub struct WgView {
    pub name: Seq<char>,
    pub city: Seq<char>,
    pub server_ip: Seq<char>,
    pub public_key: Seq<char>,
}

impl View for WgServerConfig {
    type V = WgView;

    open spec fn view(&self) -> WgView {
        WgView {
            name: self.name@,
            city: self.city@,
            server_ip: self.server_ip@,
            public_key: self.public_key@,
        }
    }
}

/// The element `0` of a JSON pointer path: the first element of an array,
/// or the member named `0` of an object.
pub open spec fn entry_zero(v: Option<JsonValue>) -> Option<JsonValue> {
    match v {
        Some(JsonValue::Array(a)) => if a@.len() > 0 {
            Some(a@[0])
        } else {
            None
        },
        Some(JsonValue::Object(e)) => lookup(e@, "0"@),
        _ => None,
    }
}

/// The city of a server record: `/locations/0/country/city/name`, or, when
/// that path does not exist, `/locations/0/city/name`; `Unknown` when the
/// chosen value is not a string.
pub open spec fn server_city(srv: JsonValue) -> Seq<char> {
    let loc = entry_zero(srv.member("locations"@));
    let p1 = member_of(member_of(member_of(loc, "country"@), "city"@), "name"@);
    let p2 = member_of(member_of(loc, "city"@), "name"@);
    let p = if p1 is Some {
        p1
    } else {
        p2
    };
    match text_of(p) {
        Some(t) => t,
        None => "Unknown"@,
    }
}

/// The value of the last `public_key` entry among `metas`, starting from `acc`.
pub open spec fn metadata_key(acc: Seq<char>, metas: Seq<JsonValue>) -> Seq<char>
    decreases metas.len(),
{
    if metas.len() == 0 {
        acc
    } else {
        let prev = metadata_key(acc, metas.drop_last());
        if text_of(metas.last().member("name"@)) == Some("public_key"@) {
            or_empty(text_of(metas.last().member("value"@)))
        } else {
            prev
        }
    }
}

pub open spec fn technology_key(acc: Seq<char>, techs: Seq<JsonValue>) -> Seq<char>
    decreases techs.len(),
{
    if techs.len() == 0 {
        acc
    } else {
        let prev = technology_key(acc, techs.drop_last());
        let tech = techs.last();
        if text_of(tech.member("identifier"@)) == Some("wireguard_udp"@) {
            match items_of(tech.member("metadata"@)) {
                Some(ms) => metadata_key(prev, ms),
                None => prev,
            }
        } else {
            prev
        }
    }
}

/// The WireGuard public key of a server record (empty when it has none).
pub open spec fn server_public_key(srv: JsonValue) -> Seq<char> {
    match items_of(srv.member("technologies"@)) {
        Some(ts) => technology_key(Seq::<char>::empty(), ts),
        None => Seq::<char>::empty(),
    }
}

/// The address of a server record: its `station`, else the first `ips`
/// entry's `ip.ip`; empty when neither is a string.
pub open spec fn server_address(srv: JsonValue) -> Seq<char> {
    match text_of(srv.member("station"@)) {
        Some(t) => t,
        None => match items_of(srv.member("ips"@)) {
            Some(ips) => if ips.len() > 0 {
                or_empty(text_of(member_of(ips[0].member("ip"@), "ip"@)))
            } else {
                Seq::<char>::empty()
            },
            None => Seq::<char>::empty(),
        },
    }
}

pub open spec fn has_city(acc: Seq<WgView>, city: Seq<char>) -> bool {
    exists|k: int| 0 <= k < acc.len() && #[trigger] acc[k].city == city
}

/// What one server record adds to the selection: nothing once four servers
/// are chosen, nothing for a city already chosen or a record without key or
/// address; otherwise the server, named `DE-<city>`.
pub open spec fn pick_server(acc: Seq<WgView>, srv: JsonValue) -> Seq<WgView> {
    let city = server_city(srv);
    let key = server_public_key(srv);
    let ip = server_address(srv);
    if acc.len() >= 4 || has_city(acc, city) || key.len() == 0 || ip.len() == 0 {
        acc
    } else {
        acc.push(WgView { name: "DE-"@ + city, city: city, server_ip: ip, public_key: key })
    }
}

pub open spec fn picked_servers(servers: Seq<JsonValue>) -> Seq<WgView>
    decreases servers.len(),
{
    if servers.len() == 0 {
        Seq::<WgView>::empty()
    } else {
        pick_server(picked_servers(servers.drop_last()), servers.last())
    }
}

pub open spec fn wg_views(v: Seq<WgServerConfig>) -> Seq<WgView> {
    v.map_values(|c: WgServerConfig| c@)
}

/// The chosen servers are at most four, lie in distinct cities, each has a
/// key and an address, and is named after its city.
pub proof fn law_picked_servers_distinct_cities(servers: Seq<JsonValue>)
    ensures
        picked_servers(servers).len() <= 4,
        forall|i: int, j: int|
            0 <= i < j < picked_servers(servers).len() ==> picked_servers(servers)[i].city
                != picked_servers(servers)[j].city,
        forall|i: int|
            0 <= i < picked_servers(servers).len() ==> {
                let w = #[trigger] picked_servers(servers)[i];
                w.public_key.len() > 0 && w.server_ip.len() > 0 && w.name == "DE-"@ + w.city
            },
    decreases servers.len(),
{
    if servers.len() > 0 {
        law_picked_servers_distinct_cities(servers.drop_last());
        let acc = picked_servers(servers.drop_last());
        let out = picked_servers(servers);
        if out.len() > acc.len() {
            let city = server_city(servers.last());
            assert(!has_city(acc, city));
            assert forall|i: int, j: int| 0 <= i < j < out.len() implies out[i].city
                != out[j].city by {
                if j == acc.len() {
                    assert(out[i] == acc[i]);
                    if acc[i].city == city {
                        assert(has_city(acc, city));
                    }
                } else {
                    assert(out[i] == acc[i]);
                    assert(out[j] == acc[j]);
                }
            }
            assert forall|i: int| 0 <= i < out.len() implies {
                let w = #[trigger] out[i];
                w.public_key.len() > 0 && w.server_ip.len() > 0 && w.name == "DE-"@ + w.city
            } by {
                if i < acc.len() {
                    assert(out[i] == acc[i]);
                }
            }
        }
    }
}

fn member_opt<'a>(v: Option<&'a JsonValue>, key: &str) -> (r: Option<&'a JsonValue>)
    ensures
        match r {
            Some(x) => member_of(
                match v {
                    Some(y) => Some(*y),
                    None => None,
                },
                key@,
            ) == Some(*x),
            None => member_of(
                match v {
                    Some(y) => Some(*y),
                    None => None,
                },
                key@,
            ) is None,
        },
{
    match v {
        Some(x) => x.get(key),
        None => None,
    }
}

fn city_from(srv: &JsonValue) -> (r: String)
    ensures
        r@ == server_city(*srv),
{
    let locs = srv.get("locations");
    let loc: Option<&JsonValue> = match locs {
        Some(JsonValue::Array(a)) => if a.len() > 0 {
            Some(&a[0])
        } else {
            None
        },
        Some(x) => match x {
            JsonValue::Object(_) => x.get("0"),
            _ => None,
        },
        None => None,
    };
    let p1 = member_opt(member_opt(member_opt(loc, "country"), "city"), "name");
    let p = if p1.is_some() {
        p1
    } else {
        member_opt(member_opt(loc, "city"), "name")
    };
    match p {
        Some(x) => match x.as_str() {
            Some(t) => String::from_str(t),
            None => String::from_str("Unknown"),
        },
        None => String::from_str("Unknown"),
    }
}

fn public_key_from(srv: &JsonValue) -> (r: String)
    ensures
        r@ == server_public_key(*srv),
{
    let mut key = String::new();
    let techs = match member_array(srv, "technologies") {
        Some(t) => t,
        None => {
            return key;
        },
    };
    let mut t: usize = 0;
    assert(techs@.take(0) =~= Seq::<JsonValue>::empty());
    while t < techs.len()
        invariant
            t <= techs.len(),
            items_of(srv.member("technologies"@)) == Some(techs@),
            key@ == technology_key(Seq::<char>::empty(), techs@.take(t as int)),
        decreases techs.len() - t,
    {
        let tech = &techs[t];
        assert(techs@.take(t + 1).drop_last() =~= techs@.take(t as int));
        let is_wg = match member_str(tech, "identifier") {
            Some(id) => str_eq(id, "wireguard_udp"),
            None => false,
        };
        if is_wg {
            match member_array(tech, "metadata") {
                Some(metas) => {
                    let ghost start = key@;
                    let mut m: usize = 0;
                    assert(metas@.take(0) =~= Seq::<JsonValue>::empty());
                    while m < metas.len()
                        invariant
                            m <= metas.len(),
                            key@ == metadata_key(start, metas@.take(m as int)),
                        decreases metas.len() - m,
                    {
                        let meta = &metas[m];
                        assert(metas@.take(m + 1).drop_last() =~= metas@.take(m as int));
                        let is_key = match member_str(meta, "name") {
                            Some(n) => str_eq(n, "public_key"),
                            None => false,
                        };
                        if is_key {
                            key = text_or_empty(member_str(meta, "value"));
                        }
                        m = m + 1;
                    }
                    assert(metas@.take(metas@.len() as int) =~= metas@);
                },
                None => {},
            }
        }
        t = t + 1;
    }
    assert(techs@.take(techs@.len() as int) =~= techs@);
    key
}

fn address_from(srv: &JsonValue) -> (r: String)
    ensures
        r@ == server_address(*srv),
{
    match member_str(srv, "station") {
        Some(t) => String::from_str(t),
        None => match member_array(srv, "ips") {
            Some(ips) => {
                if ips.len() > 0 {
                    match member_opt(ips[0].get("ip"), "ip") {
                        Some(x) => text_or_empty(x.as_str()),
                        None => String::new(),
                    }
                } else {
                    String::new()
                }
            },
            None => String::new(),
        },
    }
}

proof fn lemma_picked_full(servers: Seq<JsonValue>, i: int, j: int)
    requires
        0 <= i <= j <= servers.len(),
        picked_servers(servers.take(i)).len() >= 4,
    ensures
        picked_servers(servers.take(j)) == picked_servers(servers.take(i)),
    decreases j - i,
{
    if j > i {
        lemma_picked_full(servers, i, j - 1);
        assert(servers.take(j).drop_last() =~= servers.take(j - 1));
    }
}

/// Chooses up to four German WireGuard servers, one per city, from the
/// recommendation list, in list order.
pub fn select_german_servers(servers: &Vec<JsonValue>) -> (r: Result<Vec<WgServerConfig>, String>)
    ensures
        match r {
            Ok(v) => wg_views(v@) == picked_servers(servers@) && v@.len() > 0,
            Err(e) => picked_servers(servers@).len() == 0 && e@
                == "No suitable German WireGuard servers found"@,
        },
{
    let mut result: Vec<WgServerConfig> = Vec::new();
    let mut i: usize = 0;
    assert(servers@.take(0) =~= Seq::<JsonValue>::empty());
    assert(wg_views(result@) =~= Seq::<WgView>::empty());
    while i < servers.len() && result.len() < 4
        invariant
            i <= servers.len(),
            wg_views(result@) == picked_servers(servers@.take(i as int)),
        decreases servers.len() - i,
    {
        let srv = &servers[i];
        let ghost acc = wg_views(result@);
        assert(servers@.take(i + 1).drop_last() =~= servers@.take(i as int));
        let city = city_from(srv);
        let mut seen = false;
        let mut k: usize = 0;
        while k < result.len()
            invariant
                k <= result.len(),
                acc == wg_views(result@),
                seen == exists|q: int| 0 <= q < k && #[trigger] acc[q].city == city@,
            decreases result.len() - k,
        {
            if str_eq(result[k].city.as_str(), city.as_str()) {
                seen = true;
            }
            assert(acc[k as int].city == result@[k as int].city@);
            k = k + 1;
        }
        if !seen {
            let public_key = public_key_from(srv);
            let server_ip = address_from(srv);
            if !public_key.as_str().is_empty() && !server_ip.as_str().is_empty() {
                let mut name = String::from_str("DE-");
                name.append(city.as_str());
                let entry = WgServerConfig { name, city, server_ip, public_key };
                result.push(entry);
                assert(wg_views(result@) =~= acc.push(entry@));
            }
        }
        i = i + 1;
    }
    proof {
        if i < servers.len() {
            lemma_picked_full(servers@, i as int, servers@.len() as int);
        }
        assert(servers@.take(servers@.len() as int) =~= servers@);
    }
    if result.len() == 0 {
        return Err(String::from_str("No suitable German WireGuard servers found"));
    }
    Ok(result)
}

// ── Commands sent to the router ──

/// The SSH destination for the router at `ip`.
pub fn ssh_target(ip: &str) -> (r: String)
    ensures
        r@ == "root@"@ + ip@,
{
    let mut r = String::from_str("root@");
    r.append(ip);
    r
}

/// `ubus call <service> <method> '<args>'`.
pub fn ubus_call_command(service: &str, method: &str, args_json: &str) -> (r: String)
    ensures
        r@ == "ubus call "@ + service@ + " "@ + method@ + " '"@ + args_json@ + "'"@,
{
    let mut r = String::from_str("ubus call ");
    r.append(service);
    r.append(" ");
    r.append(method);
    r.append(" '");
    r.append(args_json);
    r.append("'");
    r
}

/// The repeater connect call, with SSID and key stripped of shell
/// metacharacters.
pub fn wifi_connect_command(ssid: &str, password: &str) -> (r: String)
    ensures
        r@ == "ubus call repeater connect '{\"ssid\":\""@ + shell_safe(ssid@) + "\",\"key\":\""@
            + shell_safe(password@) + "\"}'"@,
{
    let safe_ssid = sanitize_shell(ssid);
    let safe_pw = sanitize_shell(password);
    let mut r = String::from_str("ubus call repeater connect '{\"ssid\":\"");
    r.append(safe_ssid.as_str());
    r.append("\",\"key\":\"");
    r.append(safe_pw.as_str());
    r.append("\"}'");
    r
}

/// `ifup <id>` for a cleaned interface name.
pub fn vpn_up_command(server_id: &str) -> (r: Result<String, String>)
    ensures
        ({
            let clean = identifier_chars(server_id@);
            match r {
                Ok(c) => clean.len() > 0 && utf8_len(clean) <= 64 && c@ == "ifup "@ + clean,
                Err(e) => (clean.len() == 0 || utf8_len(clean) > 64) && e@
                    == invalid_identifier_message(server_id@),
            }
        }),
{
    let id = sanitize_identifier(server_id)?;
    let mut r = String::from_str("ifup ");
    r.append(id.as_str());
    Ok(r)
}

/// `ifdown <id>` for a cleaned interface name.
pub fn vpn_down_command(server_id: &str) -> (r: Result<String, String>)
    ensures
        ({
            let clean = identifier_chars(server_id@);
            match r {
                Ok(c) => clean.len() > 0 && utf8_len(clean) <= 64 && c@ == "ifdown "@ + clean,
                Err(e) => (clean.len() == 0 || utf8_len(clean) > 64) && e@
                    == invalid_identifier_message(server_id@),
            }
        }),
{
    let id = sanitize_identifier(server_id)?;
    let mut r = String::from_str("ifdown ");
    r.append(id.as_str());
    Ok(r)
}

/// The identifier is accepted by `sanitize_identifier`.
pub open spec fn valid_identifier(s: Seq<char>) -> bool {
    identifier_chars(s).len() > 0 && utf8_len(identifier_chars(s)) <= 64
}

/// `uci set <config>.<section>.<key>='<value>'`, the names cleaned and the
/// value stripped of shell metacharacters; the first name that is rejected
/// gives the error.
pub fn uci_set_command(config: &str, section: &str, key: &str, value: &str) -> (r: Result<
    String,
    String,
>)
    ensures
        match r {
            Ok(c) => valid_identifier(config@) && valid_identifier(section@) && valid_identifier(
                key@,
            ) && c@ == "uci set "@ + identifier_chars(config@) + "."@ + identifier_chars(section@)
                + "."@ + identifier_chars(key@) + "='"@ + shell_safe(value@) + "'"@,
            Err(e) => if !valid_identifier(config@) {
                e@ == invalid_identifier_message(config@)
            } else if !valid_identifier(section@) {
                e@ == invalid_identifier_message(section@)
            } else {
                !valid_identifier(key@) && e@ == invalid_identifier_message(key@)
            },
        },
{
    let c = sanitize_identifier(config)?;
    let s = sanitize_identifier(section)?;
    let k = sanitize_identifier(key)?;
    let v = sanitize_shell(value);
    let mut r = String::from_str("uci set ");
    r.append(c.as_str());
    r.append(".");
    r.append(s.as_str());
    r.append(".");
    r.append(k.as_str());
    r.append("='");
    r.append(v.as_str());
    r.append("'");
    Ok(r)
}

/// `uci commit <config>`.
pub fn uci_commit_command(config: &str) -> (r: String)
    ensures
        r@ == "uci commit "@ + config@,
{
    let mut r = String::from_str("uci commit ");
    r.append(config);
    r
}

/// Writes `data` to `path` on the router through a here-document.
pub fn file_write_command(path: &str, data: &str) -> (r: String)
    ensures
        r@ == "cat > "@ + path@ + " << 'WGEOF'\n"@ + data@ + "\nWGEOF"@,
{
    let mut r = String::from_str("cat > ");
    r.append(path);
    r.append(" << 'WGEOF'\n");
    r.append(data);
    r.append("\nWGEOF");
    r
}

/// `<command> <params joined by spaces>`.
pub fn file_exec_command(command: &str, params: &Vec<String>) -> (r: String)
    ensures
        r@ == command@ + " "@ + join(string_views(params@), " "@),
{
    let mut r = String::from_str(command);
    r.append(" ");
    let j = join_strings(params, " ");
    r.append(j.as_str());
    r
}

/// Asks for the `up` flag of the network interface `name`.
pub fn interface_status_command(name: &str) -> (r: String)
    ensures
        r@ == "ubus call network.interface."@ + name@
            + " status '{}' 2>/dev/null | jsonfilter -e '@.up'"@,
{
    let mut r = String::from_str("ubus call network.interface.");
    r.append(name);
    r.append(" status '{}' 2>/dev/null | jsonfilter -e '@.up'");
    r
}

/// Reads one option of a wireless section.
pub fn wireless_get_command(section: &str, option: &str) -> (r: String)
    ensures
        r@ == "uci get wireless."@ + section@ + "."@ + option@ + " 2>/dev/null"@,
{
    let mut r = String::from_str("uci get wireless.");
    r.append(section);
    r.append(".");
    r.append(option);
    r.append(" 2>/dev/null");
    r
}

/// The section name of a line of `uci show wireless` (`wireless.<s>=...`).
pub open spec fn section_of_line(line: Seq<char>) -> Seq<char> {
    replace(split_on(line, '=')[0], "wireless."@, ""@)
}

pub open spec fn seq_has(v: Seq<Seq<char>>, x: Seq<char>) -> bool {
    exists|k: int| 0 <= k < v.len() && v[k] == x
}

/// The distinct sections named by `ls`, in order of first appearance.
pub open spec fn distinct_sections(ls: Seq<Seq<char>>) -> Seq<Seq<char>>
    decreases ls.len(),
{
    if ls.len() == 0 {
        Seq::<Seq<char>>::empty()
    } else {
        let prev = distinct_sections(ls.drop_last());
        let sec = section_of_line(ls.last());
        if seq_has(prev, sec) {
            prev
        } else {
            prev.push(sec)
        }
    }
}

/// The wireless interface sections in the output of
/// `uci show wireless | grep wifi-iface`, each once.
pub fn wireless_sections(output: &str) -> (r: Vec<String>)
    ensures
        string_views(r@) == distinct_sections(lines(output@)),
{
    let v = chars_of(output);
    let ls = lines_of(&v);
    let ghost lv = lines(output@);
    let prefix = chars_of("wireless.");
    let nothing: Vec<char> = Vec::new();
    proof {
        reveal_strlit("wireless.");
        reveal_strlit("");
    }
    assert(nothing@ == ""@);
    let mut out: Vec<String> = Vec::new();
    let mut i: usize = 0;
    assert(string_views(out@) =~= distinct_sections(lv.take(0)));
    while i < ls.len()
        invariant
            i <= ls.len(),
            ls@.len() == lv.len(),
            forall|j: int| 0 <= j < ls@.len() ==> #[trigger] ls@[j]@ == lv[j],
            prefix@ == "wireless."@,
            prefix@.len() > 0,
            nothing@ == ""@,
            string_views(out@) == distinct_sections(lv.take(i as int)),
        decreases ls.len() - i,
    {
        assert(lv.take(i + 1).drop_last() =~= lv.take(i as int));
        assert(lv.take(i + 1).last() == ls@[i as int]@);
        let pieces = split_char(&ls[i], '=');
        proof {
            lemma_split_on_nonempty(ls@[i as int]@, '=');
        }
        let sec_chars = replace_chars(&pieces[0], &prefix, &nothing);
        let sec = string_of(&sec_chars);
        let ghost prev = string_views(out@);
        let mut seen = false;
        let mut k: usize = 0;
        while k < out.len()
            invariant
                k <= out.len(),
                prev == string_views(out@),
                seen == exists|q: int| 0 <= q < k && prev[q] == sec@,
            decreases out.len() - k,
        {
            if str_eq(out[k].as_str(), sec.as_str()) {
                seen = true;
            }
            assert(prev[k as int] == out@[k as int]@);
            k = k + 1;
        }
        if !seen {
            out.push(sec);
            assert(string_views(out@) =~= prev.push(section_of_line(lv[i as int])));
        }
        i = i + 1;
    }
    assert(lv.take(lv.len() as int) =~= lv);
    out
}

// ── WireGuard deployment ──

/// The interface name for a server city: `wg_de_` and the lowercase city
/// with spaces and hyphens turned into underscores.
pub open spec fn wg_interface_name_of(city: Seq<char>) -> Seq<char> {
    "wg_de_"@ + replace(replace(lowercase(city), " "@, "_"@), "-"@, "_"@)
}

pub fn wg_interface_name(city: &str) -> (r: String)
    ensures
        r@ == wg_interface_name_of(city@),
{
    proof {
        reveal_strlit(" ");
        reveal_strlit("-");
    }
    let low = to_lowercase(city);
    let a = str_replace(low.as_str(), " ", "_");
    let b = str_replace(a.as_str(), "-", "_");
    let mut r = String::from_str("wg_de_");
    r.append(b.as_str());
    r
}

/// The WireGuard configuration file for one server.
pub open spec fn wireguard_config_of(private_key: Seq<char>, public_key: Seq<char>, server_ip: Seq<
    char,
>) -> Seq<char> {
    "[Interface]\nPrivateKey = "@ + private_key + "\nAddress = 10.5.0.2/16\n\n[Peer]\nPublicKey = "@
        + public_key + "\nAllowedIPs = 0.0.0.0/0\nEndpoint = "@ + server_ip
        + ":51820\nPersistentKeepalive = 25\n"@
}

pub fn wireguard_config(private_key: &str, public_key: &str, server_ip: &str) -> (r: String)
    ensures
        r@ == wireguard_config_of(private_key@, public_key@, server_ip@),
{
    let mut r = String::from_str("[Interface]\nPrivateKey = ");
    r.append(private_key);
    r.append("\nAddress = 10.5.0.2/16\n\n[Peer]\nPublicKey = ");
    r.append(public_key);
    r.append("\nAllowedIPs = 0.0.0.0/0\nEndpoint = ");
    r.append(server_ip);
    r.append(":51820\nPersistentKeepalive = 25\n");
    r
}

/// Where the configuration of interface `iface` is written.
pub fn wireguard_conf_path(iface: &str) -> (r: String)
    ensures
        r@ == "/etc/wireguard/"@ + iface@ + ".conf"@,
{
    let mut r = String::from_str("/etc/wireguard/");
    r.append(iface);
    r.append(".conf");
    r
}

/// The `uci` commands that define WireGuard interface `i` and its peer.
pub open spec fn uci_interface_script_of(i: Seq<char>, private_key: Seq<char>, public_key: Seq<
    char,
>, endpoint: Seq<char>) -> Seq<char> {
    "uci set network."@ + i + "=interface; uci set network."@ + i
        + ".proto='wireguard'; uci set network."@ + i + ".private_key='"@ + private_key
        + "'; uci add_list network."@ + i + ".addresses='10.5.0.2/16'; uci add_list network."@ + i
        + ".dns='103.86.96.100'; uci add_list network."@ + i
        + ".dns='103.86.99.100'; uci set network."@ + i + "_peer=wireguard_"@ + i
        + "; uci set network."@ + i + "_peer.public_key='"@ + public_key + "'; uci set network."@
        + i + "_peer.endpoint_host='"@ + endpoint + "'; uci set network."@ + i
        + "_peer.endpoint_port='51820'; uci add_list network."@ + i
        + "_peer.allowed_ips='0.0.0.0/0'; uci set network."@ + i
        + "_peer.persistent_keepalive='25'; uci set network."@ + i
        + "_peer.route_allowed_ips='1'"@
}

pub fn uci_interface_script(iface: &str, private_key: &str, public_key: &str, endpoint: &str) -> (r:
    String)
    ensures
        r@ == uci_interface_script_of(iface@, private_key@, public_key@, endpoint@),
{
    let mut r = String::from_str("uci set network.");
    r.append(iface);
    r.append("=interface; uci set network.");
    r.append(iface);
    r.append(".proto='wireguard'; uci set network.");
    r.append(iface);
    r.append(".private_key='");
    r.append(private_key);
    r.append("'; uci add_list network.");
    r.append(iface);
    r.append(".addresses='10.5.0.2/16'; uci add_list network.");
    r.append(iface);
    r.append(".dns='103.86.96.100'; uci add_list network.");
    r.append(iface);
    r.append(".dns='103.86.99.100'; uci set network.");
    r.append(iface);
    r.append("_peer=wireguard_");
    r.append(iface);
    r.append("; uci set network.");
    r.append(iface);
    r.append("_peer.public_key='");
    r.append(public_key);
    r.append("'; uci set network.");
    r.append(iface);
    r.append("_peer.endpoint_host='");
    r.append(endpoint);
    r.append("'; uci set network.");
    r.append(iface);
    r.append("_peer.endpoint_port='51820'; uci add_list network.");
    r.append(iface);
    r.append("_peer.allowed_ips='0.0.0.0/0'; uci set network.");
    r.append(iface);
    r.append("_peer.persistent_keepalive='25'; uci set network.");
    r.append(iface);
    r.append("_peer.route_allowed_ips='1'");
    r
}

/// The entry reported for a deployed server (inactive until connected).
pub fn deployed_server(iface: String, srv: &WgServerConfig) -> (r: VpnServer)
    ensures
        r.id@ == iface@,
        r.name@ == srv.name@,
        r.city@ == srv.city@,
        r.ip@ == srv.server_ip@,
        !r.active,
{
    VpnServer {
        id: iface,
        name: srv.name.clone(),
        city: srv.city.clone(),
        ip: srv.server_ip.clone(),
        active: false,
    }
}

/// The summary of a deployment.
pub fn nordvpn_result(servers: Vec<VpnServer>) -> (r: NordVpnResult)
    ensures
        r.servers_loaded == servers@.len() as u32,
        r.servers@ == servers@,
{
    let n = servers.len() as u32;
    NordVpnResult { servers_loaded: n, servers }
}

/// The NordLynx private key of a credentials reply.
pub fn private_key_from(data: &JsonValue) -> (r: Result<String, String>)
    ensures
        match text_of(data.member("nordlynx_private_key"@)) {
            Some(k) => r matches Ok(s) && s@ == k,
            None => r matches Err(e) && e@ == "No nordlynx_private_key in response"@,
        },
{
    match member_str(data, "nordlynx_private_key") {
        Some(k) => Ok(String::from_str(k)),
        None => Err(String::from_str("No nordlynx_private_key in response")),
    }
}

// ── Setup steps ──

/// The refusal of a WiFi setup whose password is shorter than 8 bytes.
pub fn setup_wifi_precheck(password: &str) -> (r: Option<SetupResult>)
    ensures
        match r {
            Some(res) => password.len() < 8 && res.step@ == "wifi-ap"@ && !res.success
                && res.message@ == "Password must be at least 8 characters"@,
            None => password.len() >= 8,
        },
{
    if password.len() < 8 {
        Some(
            SetupResult {
                step: String::from_str("wifi-ap"),
                success: false,
                message: String::from_str("Password must be at least 8 characters"),
            },
        )
    } else {
        None
    }
}

/// What `uci_set_command` gives, as character sequences.
pub open spec fn uci_set_outcome(c: Seq<char>, s: Seq<char>, k: Seq<char>, v: Seq<char>) -> Result<
    Seq<char>,
    Seq<char>,
> {
    if !valid_identifier(c) {
        Err(invalid_identifier_message(c))
    } else if !valid_identifier(s) {
        Err(invalid_identifier_message(s))
    } else if !valid_identifier(k) {
        Err(invalid_identifier_message(k))
    } else {
        Ok(
            "uci set "@ + identifier_chars(c) + "."@ + identifier_chars(s) + "."@ + identifier_chars(
                k,
            ) + "='"@ + shell_safe(v) + "'"@,
        )
    }
}

pub open spec fn outcome_view(r: Result<String, String>) -> Result<Seq<char>, Seq<char>> {
    match r {
        Ok(s) => Ok(s@),
        Err(e) => Err(e@),
    }
}

pub open spec fn outcome_views(v: Seq<Result<String, String>>) -> Seq<Result<Seq<char>, Seq<char>>> {
    v.map_values(|r: Result<String, String>| outcome_view(r))
}

/// The three settings written for an access-point section.
pub open spec fn ap_section_outcomes(section: Seq<char>, ssid: Seq<char>, password: Seq<char>) -> Seq<
    Result<Seq<char>, Seq<char>>,
> {
    seq![
        uci_set_outcome("wireless"@, section, "ssid"@, ssid),
        uci_set_outcome("wireless"@, section, "key"@, password),
        uci_set_outcome("wireless"@, section, "encryption"@, "psk2+ccmp"@),
    ]
}

/// The settings for every section of `ifaces` whose mode is `ap`, in order.
pub open spec fn ap_outcomes(ifaces: Seq<(String, JsonValue)>, ssid: Seq<char>, password: Seq<char>) -> Seq<
    Result<Seq<char>, Seq<char>>,
>
    decreases ifaces.len(),
{
    if ifaces.len() == 0 {
        Seq::empty()
    } else {
        let prev = ap_outcomes(ifaces.drop_last(), ssid, password);
        let (section, iface) = ifaces.last();
        if text_of(iface.member("mode"@)) == Some("ap"@) {
            prev + ap_section_outcomes(section@, ssid, password)
        } else {
            prev
        }
    }
}

fn uci_set_outcome_exec(config: &str, section: &str, key: &str, value: &str) -> (r: Result<
    String,
    String,
>)
    ensures
        outcome_view(r) == uci_set_outcome(config@, section@, key@, value@),
{
    uci_set_command(config, section, key, value)
}

/// The `uci set` commands (or the rejection of a section name) that set the
/// SSID, key and encryption of every access-point interface of `ifaces`;
/// they are run in order, and the first failure ends the setup.
pub fn ap_wifi_commands(ifaces: &JsonValue, ssid: &str, password: &str) -> (r: Vec<
    Result<String, String>,
>)
    ensures
        outcome_views(r@) == match ifaces.members() {
            Some(m) => ap_outcomes(m, ssid@, password@),
            None => Seq::empty(),
        },
{
    let mut out: Vec<Result<String, String>> = Vec::new();
    let members = match ifaces.as_object() {
        Some(m) => m,
        None => {
            assert(outcome_views(out@) =~= Seq::empty());
            return out;
        },
    };
    let mut i: usize = 0;
    assert(members@.take(0) =~= Seq::<(String, JsonValue)>::empty());
    assert(outcome_views(out@) =~= ap_outcomes(members@.take(0), ssid@, password@));
    while i < members.len()
        invariant
            i <= members.len(),
            outcome_views(out@) == ap_outcomes(members@.take(i as int), ssid@, password@),
        decreases members.len() - i,
    {
        assert(members@.take(i + 1).drop_last() =~= members@.take(i as int));
        let section = members[i].0.as_str();
        let is_ap = match member_str(&members[i].1, "mode") {
            Some(m) => str_eq(m, "ap"),
            None => false,
        };
        if is_ap {
            let ghost before = outcome_views(out@);
            out.push(uci_set_outcome_exec("wireless", section, "ssid", ssid));
            out.push(uci_set_outcome_exec("wireless", section, "key", password));
            out.push(uci_set_outcome_exec("wireless", section, "encryption", "psk2+ccmp"));
            assert(outcome_views(out@) =~= before + ap_section_outcomes(section@, ssid@, password@));
        }
        i = i + 1;
    }
    assert(members@.take(members@.len() as int) =~= members@);
    out
}

/// The result of the WiFi setup.
pub fn setup_wifi_result(ssid: &str, outcome: Result<(), String>) -> (r: SetupResult)
    ensures
        r.step@ == "wifi-ap"@,
        match outcome {
            Ok(()) => r.success && r.message@ == "WiFi AP '"@ + ssid@ + "' configured"@,
            Err(e) => !r.success && r.message@ == e@,
        },
{
    match outcome {
        Ok(()) => {
            let mut m = String::from_str("WiFi AP '");
            m.append(ssid);
            m.append("' configured");
            SetupResult { step: String::from_str("wifi-ap"), success: true, message: m }
        },
        Err(e) => SetupResult { step: String::from_str("wifi-ap"), success: false, message: e },
    }
}

/// The shell script that installs the kill switch: a firewall rule that
/// rejects all traffic from the LAN to the uplink outside the VPN.
pub open spec fn kill_switch_script() -> Seq<char> {
    "uci set firewall.vpn_kill=rule; uci set firewall.vpn_kill.name='Kill Switch'; uci set firewall.vpn_kill.src='lan'; uci set firewall.vpn_kill.dest='wan'; uci set firewall.vpn_kill.proto='all'; uci set firewall.vpn_kill.target='REJECT'; uci commit firewall; /etc/init.d/firewall reload"@
}

/// The shell script that protects against DNS leaks: dnsmasq resolves only
/// through the VPN provider's DNS servers.
pub open spec fn dns_protection_script() -> Seq<char> {
    "uci set dhcp.@dnsmasq[0].noresolv='1'; uci delete dhcp.@dnsmasq[0].server 2>/dev/null; uci add_list dhcp.@dnsmasq[0].server='103.86.96.100'; uci add_list dhcp.@dnsmasq[0].server='103.86.99.100'; uci commit dhcp; /etc/init.d/dnsmasq restart"@
}

/// The scripts the security setup runs (each with `/bin/sh -c`), in order:
/// the kill switch when asked for, then the DNS protection when asked for.
pub fn security_scripts(kill_switch: bool, dns_protection: bool) -> (r: Vec<String>)
    ensures
        string_views(r@) == (if kill_switch {
            seq![kill_switch_script()]
        } else {
            Seq::<Seq<char>>::empty()
        }) + (if dns_protection {
            seq![dns_protection_script()]
        } else {
            Seq::<Seq<char>>::empty()
        }),
{
    let mut r: Vec<String> = Vec::new();
    if kill_switch {
        r.push(String::from_str(
            "uci set firewall.vpn_kill=rule; uci set firewall.vpn_kill.name='Kill Switch'; uci set firewall.vpn_kill.src='lan'; uci set firewall.vpn_kill.dest='wan'; uci set firewall.vpn_kill.proto='all'; uci set firewall.vpn_kill.target='REJECT'; uci commit firewall; /etc/init.d/firewall reload",
        ));
    }
    if dns_protection {
        r.push(String::from_str(
            "uci set dhcp.@dnsmasq[0].noresolv='1'; uci delete dhcp.@dnsmasq[0].server 2>/dev/null; uci add_list dhcp.@dnsmasq[0].server='103.86.96.100'; uci add_list dhcp.@dnsmasq[0].server='103.86.99.100'; uci commit dhcp; /etc/init.d/dnsmasq restart",
        ));
    }
    assert(string_views(r@) =~= (if kill_switch {
        seq![kill_switch_script()]
    } else {
        Seq::<Seq<char>>::empty()
    }) + (if dns_protection {
        seq![dns_protection_script()]
    } else {
        Seq::<Seq<char>>::empty()
    }));
    r
}

/// The summary of the security setup: which protections were switched on.
pub fn security_summary(kill_switch: bool, dns_protection: bool) -> (r: SetupResult)
    ensures
        r.step@ == "security"@,
        r.success,
        r.message@ == if kill_switch && dns_protection {
            "Kill Switch: ON, DNS Protection: ON"@
        } else if kill_switch {
            "Kill Switch: ON"@
        } else if dns_protection {
            "DNS Protection: ON"@
        } else {
            Seq::<char>::empty()
        },
{
    let message = if kill_switch && dns_protection {
        String::from_str("Kill Switch: ON, DNS Protection: ON")
    } else if kill_switch {
        String::from_str("Kill Switch: ON")
    } else if dns_protection {
        String::from_str("DNS Protection: ON")
    } else {
        String::new()
    };
    SetupResult { step: String::from_str("security"), success: true, message }
}

/// One line of the setup self-test.
pub struct SetupCheck {
    pub test: String,
    pub pass: bool,
    pub detail: Option<String>,
    pub error: Option<String>,
}

/// The self-test: the router answers, the uplink and the VPN are up, and the
/// public address is located in Germany.
pub fn setup_checks(board: Result<(), String>, status: &RouterStatus) -> (r: Vec<SetupCheck>)
    ensures
        r@.len() == 4,
        r@[0].test@ == "Router"@ && r@[0].pass == board is Ok && r@[0].detail is None,
        match board {
            Ok(()) => r@[0].error is None,
            Err(e) => r@[0].error matches Some(x) && x@ == e@,
        },
        r@[1].test@ == "WAN"@ && r@[1].pass == status.wan.connected && r@[1].error is None,
        r@[1].detail matches Some(d) && d@ == status.wan.wan_type@ + " ("@ + status.wan.ip@ + ")"@,
        r@[2].test@ == "VPN"@ && r@[2].pass == status.vpn.connected && r@[2].error is None,
        r@[2].detail matches Some(d) && d@ == status.vpn.server_name@,
        r@[3].test@ == "IP"@ && r@[3].pass == (status.vpn.country@ == "Germany"@),
        r@[3].error is None,
        r@[3].detail matches Some(d) && d@ == status.vpn.public_ip@ + " ("@ + status.vpn.country@
            + ")"@,
{
    let mut out: Vec<SetupCheck> = Vec::new();
    let router = match board {
        Ok(()) => SetupCheck { test: String::from_str("Router"), pass: true, detail: None, error: None },
        Err(e) => SetupCheck { test: String::from_str("Router"), pass: false, detail: None, error: Some(e) },
    };
    out.push(router);
    let mut wan = String::from_str(status.wan.wan_type.as_str());
    wan.append(" (");
    wan.append(status.wan.ip.as_str());
    wan.append(")");
    out.push(SetupCheck { test: String::from_str("WAN"), pass: status.wan.connected, detail: Some(wan), error: None });
    out.push(SetupCheck {
        test: String::from_str("VPN"),
        pass: status.vpn.connected,
        detail: Some(String::from_str(status.vpn.server_name.as_str())),
        error: None,
    });
    let mut ip = String::from_str(status.vpn.public_ip.as_str());
    ip.append(" (");
    ip.append(status.vpn.country.as_str());
    ip.append(")");
    let germany = str_eq(status.vpn.country.as_str(), "Germany");
    out.push(SetupCheck { test: String::from_str("IP"), pass: germany, detail: Some(ip), error: None });
    out
}

/// The router address to initialise: the given one, or the factory
/// default `192.168.8.1` when none is given.
pub fn init_password_ip(router_ip: &str) -> (r: String)
    ensures
        r@ == if router_ip@.len() == 0 {
            "192.168.8.1"@
        } else {
            router_ip@
        },
{
    if router_ip.is_empty() {
        String::from_str("192.168.8.1")
    } else {
        String::from_str(router_ip)
    }
}

/// The command that sets the root password after a factory reset; single
/// quotes in the password are escaped for the single-quoted shell string.
pub fn set_password_command(password: &str) -> (r: String)
    ensures
        ({
            let pw = replace(password@, "'"@, "'\\''"@);
            r@ == "echo -e '"@ + pw + "\\n"@ + pw + "' | passwd root"@
        }),
{
    proof {
        reveal_strlit("'");
    }
    let pw = str_replace(password, "'", "'\\''");
    let mut r = String::from_str("echo -e '");
    r.append(pw.as_str());
    r.append("\\n");
    r.append(pw.as_str());
    r.append("' | passwd root");
    r
}

/// The command that installs a public key for password-less SSH.
pub fn authorized_key_command(pubkey: &str) -> (r: String)
    ensures
        r@ == "mkdir -p /etc/dropbear; echo '"@ + trim(pubkey@)
            + "' >> /etc/dropbear/authorized_keys; chmod 600 /etc/dropbear/authorized_keys"@,
{
    let key = trim_str(pubkey);
    let mut r = String::from_str("mkdir -p /etc/dropbear; echo '");
    r.append(key.as_str());
    r.append("' >> /etc/dropbear/authorized_keys; chmod 600 /etc/dropbear/authorized_keys");
    r
}

/// The `uci set` commands that restore a saved configuration: one for each
/// non-blank line, trimmed.
pub open spec fn restore_commands_of(ls: Seq<Seq<char>>) -> Seq<Seq<char>>
    decreases ls.len(),
{
    if ls.len() == 0 {
        Seq::<Seq<char>>::empty()
    } else if trim(ls.last()).len() > 0 {
        restore_commands_of(ls.drop_last()).push("uci set "@ + trim(ls.last()))
    } else {
        restore_commands_of(ls.drop_last())
    }
}

pub fn restore_commands(uci_config: &str) -> (r: Vec<String>)
    ensures
        string_views(r@) == restore_commands_of(lines(uci_config@)),
{
    let v = chars_of(uci_config);
    let ls = lines_of(&v);
    let ghost lv = lines(uci_config@);
    let mut out: Vec<String> = Vec::new();
    let mut i: usize = 0;
    assert(string_views(out@) =~= restore_commands_of(lv.take(0)));
    while i < ls.len()
        invariant
            i <= ls.len(),
            ls@.len() == lv.len(),
            forall|j: int| 0 <= j < ls@.len() ==> #[trigger] ls@[j]@ == lv[j],
            string_views(out@) == restore_commands_of(lv.take(i as int)),
        decreases ls.len() - i,
    {
        assert(lv.take(i + 1).drop_last() =~= lv.take(i as int));
        assert(lv.take(i + 1).last() == ls@[i as int]@);
        let (lo, hi) = trim_bounds(&ls[i]);
        if lo < hi {
            let line = string_of_range(&ls[i], lo, hi);
            let mut cmd = String::from_str("uci set ");
            cmd.append(line.as_str());
            out.push(cmd);
            assert(string_views(out@) =~= restore_commands_of(lv.take(i as int)).push(
                "uci set "@ + trim(lv[i as int]),
            ));
        }
        i = i + 1;
    }
    assert(lv.take(lv.len() as int) =~= lv);
    out
}

/// The router's shell printed `OK` (a step or a login check succeeded).
pub fn reports_ok(output: &str) -> (r: bool)
    ensures
        r == contains(output@, "OK"@),
{
    str_contains(output, "OK")
}

/// `wg show` lists a completed handshake.
pub fn handshake_seen(output: &str) -> (r: bool)
    ensures
        r == contains(output@, "latest handshake"@),
{
    str_contains(output, "latest handshake")
}

} // verus!
