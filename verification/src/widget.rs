//! Tray widget of the travel-router manager: the state it polls and what
//! the tray icon and menu show for it.
use vstd::prelude::*;
use crate::json::{flag_of, member_of, text_of, JsonValue};

verus! {

/// What the widget knows about the router.
#[derive(Clone)]
pub struct VpnState {
    pub vpn_connected: bool,
    pub wan_connected: bool,
    pub server_name: String,
    pub public_ip: String,
    pub country: String,
    pub traffic_rx: String,
    pub traffic_tx: String,
}

/// `v[a][b]` as text, or `default`.
pub open spec fn nested_text(data: JsonValue, a: Seq<char>, b: Seq<char>, default: Seq<char>) -> Seq<
    char,
> {
    match text_of(member_of(data.member(a), b)) {
        Some(t) => t,
        None => default,
    }
}

pub open spec fn nested_flag(data: JsonValue, a: Seq<char>, b: Seq<char>) -> bool {
    flag_of(member_of(data.member(a), b)) == Some(true)
}

fn nested_str(data: &JsonValue, a: &str, b: &str, default: &str) -> (r: String)
    ensures
        r@ == nested_text(*data, a@, b@, default@),
{
    let found = match data.get(a) {
        Some(x) => match x.get(b) {
            Some(y) => y.as_str(),
            None => None,
        },
        None => None,
    };
    match found {
        Some(t) => String::from_str(t),
        None => String::from_str(default),
    }
}

fn nested_bool(data: &JsonValue, a: &str, b: &str) -> (r: bool)
    ensures
        r == nested_flag(*data, a@, b@),
{
    match data.get(a) {
        Some(x) => match x.get(b) {
            Some(y) => match y.as_bool() {
                Some(v) => v,
                None => false,
            },
            None => false,
        },
        None => false,
    }
}

/// The widget state from a status reply of the manager.
pub fn vpn_state_from_status(data: &JsonValue) -> (r: VpnState)
    ensures
        r.vpn_connected == nested_flag(*data, "vpn"@, "connected"@),
        r.wan_connected == nested_flag(*data, "wan"@, "connected"@),
        r.server_name@ == nested_text(*data, "vpn"@, "server_name"@, ""@),
        r.public_ip@ == nested_text(*data, "vpn"@, "public_ip"@, ""@),
        r.country@ == nested_text(*data, "vpn"@, "country"@, ""@),
        r.traffic_rx@ == nested_text(*data, "traffic"@, "rx_formatted"@, "--"@),
        r.traffic_tx@ == nested_text(*data, "traffic"@, "tx_formatted"@, "--"@),
{
    VpnState {
        vpn_connected: nested_bool(data, "vpn", "connected"),
        wan_connected: nested_bool(data, "wan", "connected"),
        server_name: nested_str(data, "vpn", "server_name", ""),
        public_ip: nested_str(data, "vpn", "public_ip", ""),
        country: nested_str(data, "vpn", "country", ""),
        traffic_rx: nested_str(data, "traffic", "rx_formatted", "--"),
        traffic_tx: nested_str(data, "traffic", "tx_formatted", "--"),
    }
}

/// The state shown while the manager cannot be reached.
pub fn unreachable_state() -> (r: VpnState)
    ensures
        !r.vpn_connected && !r.wan_connected,
        r.server_name@.len() == 0 && r.public_ip@.len() == 0 && r.country@.len() == 0,
        r.traffic_rx@ == "--"@ && r.traffic_tx@ == "--"@,
{
    VpnState {
        vpn_connected: false,
        wan_connected: false,
        server_name: String::new(),
        public_ip: String::new(),
        country: String::new(),
        traffic_rx: String::from_str("--"),
        traffic_tx: String::from_str("--"),
    }
}

/// The icon, its description and the status lines of the tray menu.
pub struct TrayView {
    pub icon: String,
    pub description: String,
    pub vpn_label: String,
    pub ip_label: Option<String>,
    pub traffic_label: String,
}

pub open spec fn vpn_line(s: VpnState) -> Seq<char> {
    "VPN: "@ + s.server_name@ + " ("@ + s.country@ + ")"@
}

/// Green with the server while the VPN is up, yellow while only the uplink
/// is, red when offline; the address line only when an address is known.
pub fn tray_view(state: &VpnState) -> (r: TrayView)
    ensures
        state.vpn_connected ==> r.icon@ == "vpn-green"@ && r.description@ == vpn_line(*state),
        !state.vpn_connected && state.wan_connected ==> r.icon@ == "vpn-yellow"@ && r.description@
            == "VPN getrennt - WAN verbunden"@,
        !state.vpn_connected && !state.wan_connected ==> r.icon@ == "vpn-red"@ && r.description@
            == "Offline"@,
        r.vpn_label@ == if state.vpn_connected {
            vpn_line(*state)
        } else {
            "VPN: Getrennt"@
        },
        match r.ip_label {
            Some(l) => state.public_ip@.len() > 0 && l@ == "IP: "@ + state.public_ip@,
            None => state.public_ip@.len() == 0,
        },
        r.traffic_label@ == "Traffic: "@ + state.traffic_rx@ + " / "@ + state.traffic_tx@,
{
    let mut line = String::from_str("VPN: ");
    line.append(state.server_name.as_str());
    line.append(" (");
    line.append(state.country.as_str());
    line.append(")");
    let (icon, description) = if state.vpn_connected {
        (String::from_str("vpn-green"), String::from_str(line.as_str()))
    } else if state.wan_connected {
        (String::from_str("vpn-yellow"), String::from_str("VPN getrennt - WAN verbunden"))
    } else {
        (String::from_str("vpn-red"), String::from_str("Offline"))
    };
    let vpn_label = if state.vpn_connected {
        line
    } else {
        String::from_str("VPN: Getrennt")
    };
    let ip_label = if !state.public_ip.as_str().is_empty() {
        let mut l = String::from_str("IP: ");
        l.append(state.public_ip.as_str());
        Some(l)
    } else {
        None
    };
    let mut traffic_label = String::from_str("Traffic: ");
    traffic_label.append(state.traffic_rx.as_str());
    traffic_label.append(" / ");
    traffic_label.append(state.traffic_tx.as_str());
    TrayView { icon, description, vpn_label, ip_label, traffic_label }
}

} // verus!
