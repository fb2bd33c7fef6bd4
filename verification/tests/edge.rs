use ia2::edge::{
    deploy_report, device_down_line, device_up_line, nic_line, platform_line, probe_failure,
    probe_report, remote_exit_code, slave_line,
};

#[test]
fn probe_and_deploy_reports() {
    assert_eq!(
        probe_report("pi", "0.4.1", Some(1200), Some(86)),
        "✓ pi reachable · v0.4.1 · 1200 scans · up 86s"
    );
    assert_eq!(probe_report("pi", "?", None, None), "✓ pi reachable · v? · ? scans · up ?");
    assert_eq!(probe_failure("pi", "unreachable"), "✗ pi: unreachable");
    assert_eq!(remote_exit_code(true), 0);
    assert_eq!(remote_exit_code(false), 1);
    assert_eq!(deploy_report("pi", "v7", true), "✓ deployed to 'pi' as version v7");
    assert_eq!(
        deploy_report("pi", "v7", false),
        "✗ deploy to 'pi' FAILED — read the log above"
    );
}

#[test]
fn scan_and_system_lines() {
    assert_eq!(
        device_down_line("rio", "ethercat", "not connected"),
        "✗ rio (ethercat) — not connected"
    );
    assert_eq!(device_up_line("rio", "ethercat", 2), "✓ rio (ethercat) connected · 2 slave(s)");
    assert_eq!(
        slave_line(0, "EK1100", 2, 0x044c2c52, 0, 4),
        "    [0] EK1100  vendor=0x00000002 product=0x044c2c52  in=0B out=4B"
    );
    assert_eq!(
        slave_line(1, "x", 0x1_0000_0000, 0, 1, 2),
        format!("    [1] x  vendor=0x{:08x} product=0x{:08x}  in=1B out=2B", 0x1_0000_0000u64, 0)
    );
    assert_eq!(platform_line("linux", "aarch64"), "linux/aarch64");
    assert_eq!(
        nic_line("eth0", "up", true, "aa:bb"),
        format!("  {:<16} {:<8} {:<11} {}", "eth0", "up", "carrier", "aa:bb")
    );
    assert_eq!(
        nic_line("a-very-long-interface-name", "unknown-state", false, ""),
        format!("  {:<16} {:<8} {:<11} {}", "a-very-long-interface-name", "unknown-state", "no-carrier", "")
    );
}
