use module_live_telemetry::dashboard::{csv_cell, dashboard_kind_for_key, DashboardItemKind, SendError};
use module_live_telemetry::item_key::ItemKey;

#[test]
fn send_error_messages() {
    assert_eq!(SendError::ChannelFull.to_string(), "sink channel full");
    assert_eq!(SendError::Disconnected.to_string(), "sink channel disconnected");
}

#[test]
fn csv_cells_quote_only_when_needed() {
    assert_eq!(csv_cell("plain"), "plain");
    assert_eq!(csv_cell("a,b"), "\"a,b\"");
    assert_eq!(csv_cell("say \"hi\""), "\"say \"\"hi\"\"\"");
    assert_eq!(csv_cell("line\nbreak"), "\"line\nbreak\"");
    assert_eq!(csv_cell(""), "");
}

#[test]
fn item_kinds_follow_key_types() {
    assert_eq!(dashboard_kind_for_key(&ItemKey::parse("raw:controls.gas").unwrap()), DashboardItemKind::RawItem);
    assert_eq!(dashboard_kind_for_key(&ItemKey::parse("calc:x").unwrap()), DashboardItemKind::CalculatedItem);
    assert_eq!(dashboard_kind_for_key(&ItemKey::parse("system:y").unwrap()), DashboardItemKind::SystemItem);
}
