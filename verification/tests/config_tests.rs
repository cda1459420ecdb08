use samba_exporter::config::Args;

#[test]
fn stock_settings() {
    let args = Args::default();
    assert_eq!(args.listen_address, "0.0.0.0".to_string());
    assert_eq!(args.port, 9922);
    assert_eq!(args.smbstatus_path, "smbstatus".to_string());
    assert_eq!(args.smbstatus_timeout, 5000);
    assert!(!args.disable_process_metrics);
    assert!(!args.cluster_mode);
}
