use evo_toolkit::json::JsonValue;
use evo_toolkit::widget::{tray_view, unreachable_state, vpn_state_from_status, VpnState};

fn s(x: &str) -> JsonValue {
    JsonValue::Str(x.to_string())
}

fn obj(members: Vec<(&str, JsonValue)>) -> JsonValue {
    JsonValue::Object(members.into_iter().map(|(k, v)| (k.to_string(), v)).collect())
}

fn state(vpn: bool, wan: bool, ip: &str) -> VpnState {
    VpnState {
        vpn_connected: vpn,
        wan_connected: wan,
        server_name: "DE-Frankfurt".to_string(),
        public_ip: ip.to_string(),
        country: "Germany".to_string(),
        traffic_rx: "1.0 MB".to_string(),
        traffic_tx: "2 KB".to_string(),
    }
}

#[test]
fn state_from_status_reply() {
    let data = obj(vec![
        (
            "vpn",
            obj(vec![
                ("connected", JsonValue::Bool(true)),
                ("server_name", s("DE-Berlin")),
                ("public_ip", s("203.0.113.9")),
                ("country", s("Germany")),
            ]),
        ),
        ("wan", obj(vec![("connected", JsonValue::Bool(true))])),
        ("traffic", obj(vec![("rx_formatted", s("5.0 MB"))])),
    ]);
    let st = vpn_state_from_status(&data);
    assert!(st.vpn_connected && st.wan_connected);
    assert_eq!(st.server_name, "DE-Berlin");
    assert_eq!(st.traffic_rx, "5.0 MB");
    assert_eq!(st.traffic_tx, "--");
    let st = vpn_state_from_status(&JsonValue::Null);
    assert!(!st.vpn_connected);
    assert_eq!(st.country, "");
    let off = unreachable_state();
    assert_eq!(off.traffic_rx, "--");
    assert!(!off.wan_connected);
}

#[test]
fn tray_shows_vpn_uplink_or_offline() {
    let v = tray_view(&state(true, true, "203.0.113.9"));
    assert_eq!(v.icon, "vpn-green");
    assert_eq!(v.description, "VPN: DE-Frankfurt (Germany)");
    assert_eq!(v.vpn_label, "VPN: DE-Frankfurt (Germany)");
    assert_eq!(v.ip_label, Some("IP: 203.0.113.9".to_string()));
    assert_eq!(v.traffic_label, "Traffic: 1.0 MB / 2 KB");
    let v = tray_view(&state(false, true, ""));
    assert_eq!(v.icon, "vpn-yellow");
    assert_eq!(v.description, "VPN getrennt - WAN verbunden");
    assert_eq!(v.vpn_label, "VPN: Getrennt");
    assert_eq!(v.ip_label, None);
    let v = tray_view(&state(false, false, ""));
    assert_eq!(v.icon, "vpn-red");
    assert_eq!(v.description, "Offline");
}
