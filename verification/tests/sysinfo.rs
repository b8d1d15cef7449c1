use arxos::plan::Command;
use arxos::sysinfo::{
    anond_exit_location, anond_shown, anond_status, arxonion_status, cached_count, kernels_list, kernels_manifest, location_command,
    location_text, mac_file, parse_totals, primary_iface, read_numbers, service_status, services, system_info,
    totals_command, updates_breakdown, weapons_categories, Snapshot, Sources,
};

fn line(c: &Command) -> String {
    let mut s = c.bin.clone();
    for a in &c.args {
        s.push(' ');
        s.push_str(a);
    }
    s
}

#[test]
fn the_system_is_described() {
    let s = Sources {
        hostname: "deck\n",
        os_release: "NAME=\"Arx\"\nPRETTY_NAME=\"ArxOS 3\"\n",
        uname: "6.9.1-arxos\n",
        uptime: 7384,
        cpuinfo: "processor\t: 0\nmodel name : Some CPU @ 3GHz\nmodel name : other\n",
        meminfo: "MemTotal:       16000 kB\nMemFree: 1 kB\nMemAvailable:    4000 kB\n",
        hwinfo: "MEMTYPE=DDR5 \nMEMSPEED=5600 MT/s\n",
        loadavg: "0.10 0.20 0.30 1/200 4242\n",
    };
    let r = system_info(&s);
    assert_eq!((r.host.as_str(), r.distro.as_str(), r.kernel.as_str()), ("deck", "ArxOS 3", "6.9.1-arxos"));
    assert_eq!((r.uptime.as_str(), r.load.as_str()), ("2h 3m", "0.10 0.20 0.30"));
    assert_eq!(r.mem_type, "DDR5 · 5600 MT/s");
    assert_eq!((r.mem_used, r.mem_total), (12000, 16000));
    assert_eq!(r.cpu, "Some CPU @ 3GHz");
    let empty = Sources {
        hostname: "",
        os_release: "",
        uname: "",
        uptime: 0,
        cpuinfo: "",
        meminfo: "MemAvailable: 7\n",
        hwinfo: "MEMSPEED=5600\n",
        loadavg: "",
    };
    let r = system_info(&empty);
    assert_eq!((r.distro.as_str(), r.uptime.as_str(), r.mem_type.as_str()), ("ArxOS", "0h 0m", ""));
    assert_eq!((r.mem_used, r.mem_total, r.cpu.as_str()), (0, 0, ""));
}

#[test]
fn the_badge_reads_the_count() {
    assert_eq!(cached_count("17\n"), Some(17));
    assert_eq!(cached_count("x"), None);
}

#[test]
fn the_breakdown_falls_back_to_zeroes() {
    assert_eq!(updates_breakdown("{\"pacman\":3}"), "{\"pacman\":3}");
    assert_eq!(
        updates_breakdown("command not found"),
        "{\"pacman\":0,\"aur\":0,\"tools\":0,\"total\":0}"
    );
}

#[test]
fn kernels_are_listed() {
    let v = kernels_list(
        "linux-arxos 6.9.1 installed daily driver *running\nlinux-arxos-rt 6.9.1 available\nflavor version status role\nlinux-arxos 1\n",
    );
    assert_eq!(v.len(), 2);
    assert_eq!((v[0].flavor.as_str(), v[0].version.as_str(), v[0].status.as_str()), ("linux-arxos", "6.9.1", "installed"));
    assert_eq!((v[0].role.as_str(), v[0].running), ("daily driver", true));
    assert_eq!((v[1].flavor.as_str(), v[1].role.as_str(), v[1].running), ("linux-arxos-rt", "", false));
}

#[test]
fn the_manifest_is_read() {
    let m = kernels_manifest(
        "{\"updated\":\"2026-01-02\",\
          \"flavors\":{\"linux-arxos-rt\":{\"role\":\"audio\",\"base\":\"rt\",\"current\":\"6.9\"},\"linux-arxos\":{\"role\":\"daily\"}},\
          \"tunes\":[{\"name\":\"BORE\",\"advantage\":\"snappy\"},7],\
          \"kernels\":[{\"flavor\":\"linux-arxos\",\"version\":\"6.9.1\",\"upstream\":\"6.9\",\"date\":\"d\",\"status\":\"s\",\"changes\":\"c\"}]}",
    );
    assert_eq!(m.updated, "2026-01-02");
    let flavors: Vec<(&str, &str, &str, &str)> =
        m.flavors.iter().map(|f| (f.name.as_str(), f.role.as_str(), f.base.as_str(), f.current.as_str())).collect();
    assert_eq!(flavors, vec![("linux-arxos", "daily", "", ""), ("linux-arxos-rt", "audio", "rt", "6.9")]);
    assert_eq!((m.tunes[0].name.as_str(), m.tunes[0].advantage.as_str()), ("BORE", "snappy"));
    assert_eq!((m.tunes[1].name.as_str(), m.tunes.len()), ("", 2));
    let h = &m.history[0];
    assert_eq!((h.flavor.as_str(), h.version.as_str(), h.upstream.as_str()), ("linux-arxos", "6.9.1", "6.9"));
    assert_eq!((h.date.as_str(), h.status.as_str(), h.changes.as_str()), ("d", "s", "c"));
    let m = kernels_manifest("");
    assert!(m.flavors.is_empty() && m.tunes.is_empty() && m.history.is_empty() && m.updated.is_empty());
}

#[test]
fn the_arsenal_is_counted() {
    let t = parse_totals("120\tx 4000\t3880 9\n");
    assert_eq!((t.curated, t.total, t.other), (120, 4000, 3880));
    let t = parse_totals("");
    assert_eq!((t.curated, t.total, t.other), (0, 0, 0));
    assert_eq!(read_numbers("1 a 2"), vec![1, 2]);
    assert_eq!(line(&totals_command(false)), "arx weapons totals");
    assert_eq!(line(&totals_command(true)), "arx weapons totals --force");
    let v: Vec<(String, usize)> = weapons_categories(
        "# a|b|c|d\n\nnmap|NET|Scan|Recon|x\nfoo|M|SUB| |x\n bar|M|S|recon|x|y\nbaz|M|S\nno bars\nqux|M|Sub|web\n",
    )
    .into_iter()
    .map(|c| (c.name, c.count))
    .collect();
    assert_eq!(
        v,
        vec![("recon".to_string(), 2), ("sub".to_string(), 1), ("web".to_string(), 1)]
    );
}

#[test]
fn services_are_reported() {
    assert_eq!(services(), vec!["NetworkManager", "tor-anonkit", "lightdm", "arxupd.timer", "sshd"]);
    let s = service_status("sshd".to_string(), "active\n");
    assert_eq!((s.name.as_str(), s.active), ("sshd", true));
    assert!(!service_status("sshd".to_string(), "inactive\n").active);
}

#[test]
fn the_daemon_is_reported() {
    assert_eq!(primary_iface("1.1.1.1 via 10.0.0.1 dev eth0 src 10.0.0.2"), "eth0");
    assert_eq!(primary_iface(""), "");
    assert_eq!(mac_file("eth0"), "/sys/class/net/eth0/address");
    let s = anond_status("", "", "", "");
    assert_eq!((s.state.as_str(), s.exit_ip.as_str(), s.bootstrap_pct), ("Down", "", 0));
    assert_eq!((s.tor.as_str(), s.killswitch.as_str(), s.dns.as_str(), s.i2p.as_str()), ("stopped", "down", "open", "off"));
    let s = anond_status("{\"bootstrap_pct\":250,\"tor\":5}", "", "x", "");
    assert_eq!((s.bootstrap_pct, s.tor.as_str()), (100, "stopped"));
}

#[test]
fn what_a_snapshot_leaves_out_is_down() {
    let said = Snapshot {
        state: Some("Active".to_string()),
        exit_ip: None,
        bootstrap_pct: Some(101),
        tor: Some("running".to_string()),
        killswitch: None,
        dns: None,
        i2p: None,
    };
    let s = anond_shown(said, "eth0", "aa:bb\n", "nameserver 10.0.0.1\n");
    assert_eq!((s.state.as_str(), s.exit_ip.as_str(), s.bootstrap_pct), ("Active", "", 100));
    assert_eq!((s.tor.as_str(), s.killswitch.as_str(), s.dns.as_str(), s.i2p.as_str()), ("running", "down", "open", "off"));
    assert_eq!((s.mac.as_str(), s.iface.as_str(), s.resolver.as_str()), ("aa:bb", "eth0", "10.0.0.1"));
}

#[test]
fn the_exit_is_located() {
    assert_eq!(line(&location_command("5.6.7.8").unwrap()), "curl -s --max-time 8 https://ipinfo.io/5.6.7.8/json");
    assert!(location_command("").is_none());
    assert!(location_command("5.6.7.8/../x").is_none());
    assert!(location_command("2a0b::Ff").is_some());
    assert_eq!(location_text("Oslo", "", "NO", ""), "Oslo, NO");
    assert_eq!(location_text("Oslo", "Oslo", "NO", "AS1 x"), "Oslo, Oslo, NO · AS1 x");
    assert_eq!(location_text("", "", "", "AS1 x"), " · AS1 x");
    assert_eq!(location_text("", "", "", ""), "");
    assert_eq!(anond_exit_location("{\"city\":\"Oslo\",\"country\":\"NO\",\"org\":\"AS1\"}"), "Oslo, NO · AS1");
    assert_eq!(anond_exit_location("nope"), "");
}

#[test]
fn the_isolation_is_reported() {
    let s = arxonion_status("arxonion (id: 1)\n", true);
    assert_eq!((s.up, s.tor_available), (true, true));
    let s = arxonion_status("", false);
    assert_eq!((s.up, s.tor_available), (false, false));
}
