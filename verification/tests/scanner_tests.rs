use samba_exporter::scanner::{
    get_metrics, parse_lock_section, parse_process_section, parse_share_section,
};
use samba_exporter::timeparse::parse_samba_time;

const SEP: &str = "----------------------------------------------";

// Unix timestamps for 2026-01-08T15:00:00Z (a Thursday) and one day later.
const T1: i64 = 1767884400;
const T2: i64 = T1 + 86400;

fn toks(parts: &[&str]) -> Vec<String> {
    parts.iter().map(|p| p.to_string()).collect()
}

#[test]
fn process_section_without_separator_is_zero_valued() {
    let p = parse_process_section("no table here\njust chatter\n");
    assert_eq!(p.version, "unknown".to_string());
    assert!(p.pids.is_empty());
    assert!(p.users.is_empty());
    assert!(p.protocols.is_empty());
    assert!(p.encryption.is_empty());
    assert!(p.signing.is_empty());
}

#[test]
fn share_section_without_separator_is_zero_valued() {
    let s = parse_share_section("no table here\njust chatter\n");
    assert!(s.shares.is_empty());
    assert_eq!(s.oldest_connection_unix, None);
}

#[test]
fn lock_section_without_separator_counts_zero() {
    assert_eq!(parse_lock_section("no table here\njust chatter\n"), 0);
}

#[test]
fn cluster_style_pid_keeps_last_segment() {
    let text = format!("{SEP}\nnode1:4821 alice grp mach1 SMB3_11 AES-128-GCM AES-128-CMAC\n");
    let p = parse_process_section(&text);
    assert_eq!(p.pids, vec![4821]);
    assert_eq!(p.users, vec!["alice".to_string()]);
    assert_eq!(p.protocols, vec![("SMB3_11".to_string(), 1)]);
    assert_eq!(p.encryption, vec![("AES-128-GCM".to_string(), 1)]);
    assert_eq!(p.signing, vec![("AES-128-CMAC".to_string(), 1)]);
}

#[test]
fn plain_pid_parses_the_same_way() {
    let text = format!("{SEP}\n4821 alice grp mach1 SMB3_11 - -\n");
    let p = parse_process_section(&text);
    assert_eq!(p.pids, vec![4821]);
}

#[test]
fn short_row_contributes_nothing() {
    let text = format!("{SEP}\n4821 alice grp mach1 SMB3_11 -\n");
    let p = parse_process_section(&text);
    assert!(p.pids.is_empty());
    assert!(p.users.is_empty());
    assert!(p.protocols.is_empty());
    assert!(p.encryption.is_empty());
    assert!(p.signing.is_empty());
}

#[test]
fn repeated_users_and_protocols_are_counted_once_and_twice() {
    let text = format!(
        "{SEP}\n1 alice g m SMB3_11 - -\n2 alice g m SMB3_11 - -\n3 bob g m SMB2_10 - -\n"
    );
    let p = parse_process_section(&text);
    assert_eq!(p.pids, vec![1, 2, 3]);
    assert_eq!(p.users, vec!["alice".to_string(), "bob".to_string()]);
    assert_eq!(
        p.protocols,
        vec![("SMB3_11".to_string(), 2), ("SMB2_10".to_string(), 1)]
    );
}

#[test]
fn version_is_read_two_lines_above_the_separator() {
    let text = format!("Samba version 4.19.5\nPID User Group\n{SEP}\n");
    let p = parse_process_section(&text);
    assert_eq!(p.version, "4.19.5".to_string());
}

#[test]
fn version_defaults_to_unknown_without_marker() {
    let text = format!("something else\nPID User Group\n{SEP}\n");
    let p = parse_process_section(&text);
    assert_eq!(p.version, "unknown".to_string());
}

#[test]
fn unparseable_pid_is_skipped_but_row_still_counts() {
    let text = format!("{SEP}\nnotapid alice g m SMB3_11 - -\n");
    let p = parse_process_section(&text);
    assert!(p.pids.is_empty());
    assert_eq!(p.users, vec!["alice".to_string()]);
    assert_eq!(p.protocols, vec![("SMB3_11".to_string(), 1)]);
}

#[test]
fn weekday_tokens_parse_to_unix_time() {
    assert_eq!(
        parse_samba_time(&toks(&["Thu", "Jan", "8", "15:00:00", "2026"])),
        Some(T1)
    );
}

#[test]
fn zero_padded_day_parses_to_the_same_instant() {
    assert_eq!(
        parse_samba_time(&toks(&["Thu", "Jan", "08", "15:00:00", "2026"])),
        Some(T1)
    );
}

#[test]
fn slashed_date_parses_to_the_same_instant() {
    assert_eq!(parse_samba_time(&toks(&["2026/01/08", "15:00:00"])), Some(T1));
}

#[test]
fn garbage_tokens_are_unparseable() {
    assert_eq!(parse_samba_time(&toks(&["garbage"])), None);
    assert_eq!(parse_samba_time(&Vec::new()), None);
}

#[test]
fn earliest_connection_is_order_independent() {
    let early = "media 4821 mach1 Thu Jan 8 15:00:00 2026";
    let late = "docs 5000 mach2 Fri Jan 9 15:00:00 2026";
    let one = format!("Service PID Machine Connected at\n{SEP}\n{early}\n{late}\n");
    let two = format!("Service PID Machine Connected at\n{SEP}\n{late}\n{early}\n");
    let s1 = parse_share_section(&one);
    let s2 = parse_share_section(&two);
    assert_eq!(s1.oldest_connection_unix, Some(T1));
    assert_eq!(s2.oldest_connection_unix, Some(T1));
    assert_eq!(s1.shares.len(), 2);
    assert!(s1.shares.contains(&"media".to_string()));
    assert!(s1.shares.contains(&"docs".to_string()));
    let late_only = format!("Service PID Machine Connected at\n{SEP}\n{late}\n");
    assert_eq!(parse_share_section(&late_only).oldest_connection_unix, Some(T2));
}

#[test]
fn share_row_without_readable_date_still_names_the_share() {
    let text = format!("{SEP}\nmedia 4821 mach1 who knows when exactly huh\n");
    let s = parse_share_section(&text);
    assert_eq!(s.shares, vec!["media".to_string()]);
    assert_eq!(s.oldest_connection_unix, None);
}

#[test]
fn lock_count_ignores_blank_rows() {
    let text = format!("Locked files:\n{SEP}\na\nb\nc\nd\ne\n\n \n");
    assert_eq!(parse_lock_section(&text), 5);
}

#[test]
fn end_to_end_with_one_failed_table() {
    let proc_text = format!(
        "Samba version 4.19.5\nPID Username Group Machine Protocol Encryption Signing\n{SEP}\n\
         4821 alice users mach1 SMB3_11 - -\n5000 bob users mach2 SMB3_11 - -\n"
    );
    let share_text = "no separator in this output\n";
    let lock_text = format!("Locked files:\n{SEP}\nlock-row-one\nlock-row-two\n\n");
    let snap = get_metrics(Some(&proc_text), Some(share_text), Some(&lock_text));
    assert_eq!(snap.version, "4.19.5".to_string());
    assert_eq!(snap.pids, vec![4821, 5000]);
    assert_eq!(snap.users.len(), 2);
    assert_eq!(snap.shares.len(), 0);
    assert_eq!(snap.lock_count, 2);
    assert_eq!(snap.oldest_connection_unix, None);
}

#[test]
fn windows_line_endings_scan_the_same_way() {
    let text = format!("Samba version 4.19.5\r\nheader line\r\n{SEP}\r\n1 alice g m SMB3_11 - -\r\n");
    let p = parse_process_section(&text);
    assert_eq!(p.version, "4.19.5".to_string());
    assert_eq!(p.pids, vec![1]);
    assert_eq!(p.users, vec!["alice".to_string()]);
}

#[test]
fn end_to_end_with_missing_invocations() {
    let snap = get_metrics(None, None, None);
    assert_eq!(snap.version, "unknown".to_string());
    assert!(snap.pids.is_empty());
    assert!(snap.users.is_empty());
    assert!(snap.shares.is_empty());
    assert_eq!(snap.lock_count, 0);
    assert_eq!(snap.oldest_connection_unix, None);
}
