use p2pgo_ui::clipboard_helper::{parse_ticket_from_text, ClipboardHelper, CopyPlan, TicketParseError};
use p2pgo_ui::network_events::{AppEffect, ToastKind};
use p2pgo_ui::text::{decimal_string, tenths_string, two_digit_string};

#[test]
fn multiaddress_first_line_is_the_ticket() {
    let t = "  /ip4/192.168.1.2/tcp/4001/p2p/12D3KooWabc\nsecond line";
    assert_eq!(parse_ticket_from_text(t), Ok("/ip4/192.168.1.2/tcp/4001/p2p/12D3KooWabc".to_string()));
}

#[test]
fn short_multiaddress_falls_through_to_not_found() {
    assert_eq!(parse_ticket_from_text("/ip4/1.2"), Err(TicketParseError::NotFound));
    assert_eq!(TicketParseError::NotFound.message(), "No valid ticket found in the text");
}

#[test]
fn long_base64_line_is_found() {
    let ticket = "A".repeat(60) + "+/=";
    let text = format!("Here is my ticket:\r\n   {}   \r\nthanks", ticket);
    assert_eq!(parse_ticket_from_text(&text), Ok(ticket));
}

#[test]
fn text_between_markers_is_found() {
    let text = "=== P2P GO TICKET ===\n  my ticket here \n======================\n";
    assert_eq!(parse_ticket_from_text(text), Ok("my ticket here".to_string()));
    assert_eq!(
        parse_ticket_from_text("=== P2P GO TICKET ===   ======================"),
        Err(TicketParseError::NotFound)
    );
}

#[test]
fn copy_plan_by_length() {
    let h = ClipboardHelper::new();
    assert_eq!(h.copy_plan("short"), CopyPlan::Reject);
    assert_eq!(h.copy_plan("/ip4/1.2.3.4/tcp/4001"), CopyPlan::CopyQuietly);
    assert_eq!(h.copy_plan(&"x".repeat(60)), CopyPlan::CopyWithToast);
}

#[test]
fn shortening_addresses() {
    let h = ClipboardHelper::new();
    assert_eq!(h.shorten_for_display("/ip4/1.2.3.4/tcp/1"), "/ip4/1.2.3.4/tcp/1");
    assert_eq!(
        h.shorten_for_display("/ip4/192.168.100.200/tcp/4001/p2p/12D3KooWAbCdEfGh"),
        "TCP (...:4001) [12D3KooW...]"
    );
    assert_eq!(
        h.shorten_for_display("/ip4/192.168.100.200/udp/9/quic/p2p/abc"),
        "UDP (...:9) [abc]"
    );
    assert_eq!(
        h.shorten_for_display("abcdefghijklmnopqrstuvwxyz0123456789"),
        "abcdefghij...23456789"
    );
}

#[test]
fn decimal_rendering() {
    assert_eq!(decimal_string(0), "0");
    assert_eq!(decimal_string(4001), "4001");
    assert_eq!(decimal_string(u64::MAX), u64::MAX.to_string());
    assert_eq!(two_digit_string(7), "07");
    assert_eq!(two_digit_string(42), "42");
    assert_eq!(tenths_string(65), "6.5");
    assert_eq!(tenths_string(3), "0.3");
}

#[test]
fn overlapping_markers_give_no_ticket() {
    assert_eq!(
        parse_ticket_from_text("====================== === P2P GO TICKET ==="),
        Err(TicketParseError::NotFound)
    );
}

#[test]
fn pretty_ticket_round_trips() {
    let t = "abc-ticket 42";
    let s = format!(
        "=== P2P GO TICKET ===\n{}\n======================\nPaste this ticket in the P2P Go app to join the game.",
        t
    );
    assert_eq!(parse_ticket_from_text(&s), Ok(t.to_string()));
}

fn toasts(effects: &[AppEffect]) -> Vec<(ToastKind, String)> {
    effects
        .iter()
        .filter_map(|e| match e {
            AppEffect::Toast { kind, text } => Some((*kind, text.clone())),
            _ => None,
        })
        .collect()
}

#[test]
fn copy_notifications() {
    let helper = ClipboardHelper::new();
    let (plan, effects) = helper.copy_ticket_with_toast("short");
    assert_eq!(plan, CopyPlan::Reject);
    assert_eq!(toasts(&effects), vec![(ToastKind::Error, "No valid ticket available".to_string())]);
    let (plan, effects) = helper.copy_ticket_with_toast("");
    assert_eq!(plan, CopyPlan::Reject);
    assert_eq!(effects.len(), 1);
    let (plan, effects) = helper.copy_ticket_with_toast("/ip4/10.0.0.1/tcp/4001");
    assert_eq!(plan, CopyPlan::CopyQuietly);
    assert!(effects.is_empty());
    let long = "A".repeat(60);
    let (plan, effects) = helper.copy_ticket_with_toast(&long);
    assert_eq!(plan, CopyPlan::CopyWithToast);
    assert_eq!(toasts(&effects), vec![(ToastKind::Success, "Connection ticket copied to clipboard!".to_string())]);
    assert_eq!(helper.copy_ticket(&long).0, true);
    assert_eq!(helper.copy_ticket("/ip4/10.0.0.1/tcp/4001").0, false);
    assert_eq!(toasts(&helper.copy_failed()), vec![(ToastKind::Error, "Failed to copy ticket".to_string())]);
}
