use arxos::net::{
    blocked, counters, disabled, iface, ipv4_map, kind_of, net_block_port, net_disable_service, net_ports, parse_proc,
    rated, read_ports, safe_unit, service_label, take_readings, unit_of, Counter, Growth, Link, Meter, PortRow, Rated,
    Reading,
};
use arxos::plan::Command;

fn line(c: &Command) -> String {
    let mut s = c.bin.clone();
    for a in &c.args {
        s.push(' ');
        s.push_str(a);
    }
    s
}

#[test]
fn the_first_address_of_an_interface_counts() {
    let v = ipv4_map(
        "2: eth0    inet 10.0.0.2/24 brd 10.0.0.255 scope global\n2: eth0    inet 10.0.0.9/24\n3: wlan0    inet 192.168.1.5/24\n4: x\n5: y inet\n",
    );
    assert_eq!(
        v,
        vec![
            ("eth0".to_string(), "10.0.0.2".to_string()),
            ("wlan0".to_string(), "192.168.1.5".to_string())
        ]
    );
    assert_eq!(kind_of(true, true), "wireless");
    assert_eq!(kind_of(false, true), "ethernet");
    assert_eq!(kind_of(false, false), "virtual");
}

#[test]
fn counters_are_read() {
    let dev = "Inter-|   Receive  |  Transmit\n face |bytes packets\n    lo: 1 1 0 0 0 0 0 0 1 1 0 0 0 0 0 0\n  eth0: 1000 2 0 0 0 0 0 0 500 4 0 0 0 0 0 0\n tun0:1 2 3\n wl0: x 0 0 0 0 0 0 0 7\n : 1 2 3 4 5 6 7 8 9\n";
    let v: Vec<(String, u64, u64)> = counters(dev).into_iter().map(|c| (c.name, c.rx, c.tx)).collect();
    assert_eq!(v, vec![("eth0".to_string(), 1000, 500), ("wl0".to_string(), 0, 7)]);
}

#[test]
fn growth_is_measured_over_the_time_that_passed() {
    let mut m = Meter::new();
    assert!(m.measure("eth0", 1000, 500, 0).is_none());
    let g = m.measure("eth0", 3000, 500, 2_000_000_000).unwrap();
    assert_eq!((g.rx, g.tx, g.nanos), (2000, 0, 2_000_000_000));
    assert!(m.measure("eth0", 4000, 600, 2_050_000_000).is_none());
    let g = m.measure("eth0", 10, 700, 2_100_000_001).unwrap();
    assert_eq!((g.rx, g.tx, g.nanos), (0, 100, 50_000_001));
    assert!(m.measure("wlan0", 1, 1, 3_000_000_000).is_none());
}

#[test]
fn every_interface_is_measured_at_once() {
    let mut m = Meter::new();
    let dev = |rx: u64| format!("eth0: {rx} 2 0 0 0 0 0 0 500 4\n lo: 9 9 9 9 9 9 9 9 9 9\nwl0: 7 0 0 0 0 0 0 0 7 0\n");
    let first = take_readings(&mut m, &dev(1000), 0);
    assert_eq!(first.len(), 2);
    assert!(first.iter().all(|r| r.growth.is_none()));
    let second = take_readings(&mut m, &dev(4000), 3_000_000_000);
    assert_eq!((second[0].counter.name.as_str(), second[0].counter.rx), ("eth0", 4000));
    let g = second[0].growth.unwrap();
    assert_eq!((g.rx, g.tx, g.nanos), (3000, 0, 3_000_000_000));
    assert_eq!(second[1].growth.unwrap().rx, 0);
}

#[test]
fn a_look_compares_with_the_last_one_that_saw_the_interface() {
    let mut m = Meter::new();
    let dev = |name: &str, rx: u64| format!("{name}: {rx} 2 0 0 0 0 0 0 500 4\n");
    let second = 1_000_000_000;
    assert!(take_readings(&mut m, &dev("eth0", 1000), 0)[0].growth.is_none());
    assert!(take_readings(&mut m, &dev("wl0", 9), second)[0].growth.is_none());
    assert!(take_readings(&mut m, "", 2 * second).is_empty());
    let g = take_readings(&mut m, &dev("eth0", 1500), 5 * second)[0].growth.unwrap();
    assert_eq!((g.rx, g.nanos), (500, 5 * second));
    let g = take_readings(&mut m, &dev("wl0", 10), 6 * second)[0].growth.unwrap();
    assert_eq!((g.rx, g.nanos), (1, 5 * second));
}

#[test]
fn a_rate_needs_growth() {
    let link = || Link {
        operstate: "up".to_string(),
        carrier: "1".to_string(),
        speed: "1000".to_string(),
        wireless: false,
        device: true,
    };
    let reading = |growth: Option<(u64, u64)>| Reading {
        counter: Counter { name: "eth0".to_string(), rx: 10, tx: 20 },
        growth: growth.map(|(rx, tx)| Growth { rx, tx, nanos: 1_000_000_000 }),
    };
    let rates = |growth| {
        let x = rated(reading(growth), 7, 9, link());
        assert_eq!((x.counter.name.as_str(), x.counter.rx, x.link.speed.as_str()), ("eth0", 10, "1000"));
        (x.rx_bps, x.tx_bps)
    };
    assert_eq!(rates(Some((7, 9))), (7, 9));
    assert_eq!(rates(Some((0, 9))), (0, 9));
    assert_eq!(rates(Some((7, 0))), (7, 0));
    assert_eq!(rates(None), (0, 0));
}

#[test]
fn an_interface_is_described() {
    let link = |operstate: &str, carrier: &str, speed: &str, wireless: bool| Link {
        operstate: operstate.to_string(),
        carrier: carrier.to_string(),
        speed: speed.to_string(),
        wireless,
        device: true,
    };
    let with = |link: Link| Rated {
        counter: Counter { name: "eth0".to_string(), rx: 10, tx: 20 },
        rx_bps: 3,
        tx_bps: 4,
        link,
    };
    let ips = vec![("eth0".to_string(), "10.0.0.2".to_string())];
    let i = iface(&with(link("down\n", "1\n", "1000\n", false)), &ips);
    assert_eq!((i.name.as_str(), i.ip.as_str(), i.up, i.kind.as_str()), ("eth0", "10.0.0.2", true, "ethernet"));
    assert_eq!((i.rx_bps, i.tx_bps, i.rx_total, i.tx_total, i.link_mbps), (3, 4, 10, 20, 1000));
    let i = iface(&with(link("down", "", "", true)), &Vec::new());
    assert_eq!((i.ip.as_str(), i.up, i.link_mbps, i.kind.as_str()), ("", false, -1, "wireless"));
}

#[test]
fn a_process_is_read_out_of_its_field() {
    assert_eq!(parse_proc("((\"sshd\",pid=812,fd=3))"), ("sshd".to_string(), 812));
    assert_eq!(parse_proc(""), (String::new(), 0));
    assert_eq!(parse_proc("\"x\",pid=,fd=1"), ("x".to_string(), 0));
    assert_eq!(parse_proc("pid=99999999999"), (String::new(), 0));
    assert_eq!(unit_of("0::/system.slice/sshd.service\n"), "sshd.service");
    assert_eq!(unit_of("0::/user.slice/a.service/b.service\n"), "a.service");
    assert_eq!(unit_of("0::/init.scope\n"), "");
}

#[test]
fn ports_have_labels() {
    assert_eq!(service_label(22, "sshd"), "sshd");
    assert_eq!(service_label(22, ""), "ssh");
    assert_eq!(service_label(445, ""), "smb");
    assert_eq!(service_label(139, ""), "smb");
    assert_eq!(service_label(9050, ""), "tor");
    assert_eq!(service_label(27017, ""), "mongodb");
    assert_eq!(service_label(1, ""), "");
}

const SS: &str = "udp UNCONN 0 0 127.0.0.1:323 0.0.0.0:*\n\
tcp LISTEN 0 128 [::]:22 [::]:* users:((\"sshd\",pid=812,fd=4))\n\
tcp LISTEN 0 128 0.0.0.0:22 0.0.0.0:* users:((\"sshd\",pid=812,fd=3))\n\
tcp LISTEN 0 5 [::1]:631 [::]:*\n\
raw x 0 0 0.0.0.0:9 *\n\
tcp LISTEN 0 5 0.0.0.0:x *\n\
tcp LISTEN 0\n\
udp UNCONN 0 0 0.0.0.0:22 0.0.0.0:*\n";

#[test]
fn listening_ports_are_read() {
    let v: Vec<(String, String, u32, String, u32, bool)> = read_ports(SS)
        .into_iter()
        .map(|r| (r.proto, r.addr, r.port, r.service, r.pid, r.exposed))
        .collect();
    let row = |p: &str, a: &str, n: u32, s: &str, pid: u32, e: bool| {
        (p.to_string(), a.to_string(), n, s.to_string(), pid, e)
    };
    assert_eq!(
        v,
        vec![
            row("udp", "127.0.0.1", 323, "", 0, false),
            row("tcp", "::", 22, "sshd", 812, true),
            row("tcp", "0.0.0.0", 22, "sshd", 812, true),
            row("tcp", "::1", 631, "cups", 0, false),
            row("udp", "0.0.0.0", 22, "ssh", 0, true),
        ]
    );
}

#[test]
fn exposed_ports_come_first_and_once() {
    let cgroups: Vec<String> = (0..3).map(|i| format!("0::/system.slice/s{i}.service\n")).collect();
    let rows: Vec<PortRow> = net_ports(read_ports(SS), &cgroups);
    let v: Vec<(String, String, u32, String)> =
        rows.into_iter().map(|r| (r.proto, r.addr, r.port, r.unit)).collect();
    let row = |p: &str, a: &str, n: u32, u: &str| (p.to_string(), a.to_string(), n, u.to_string());
    assert_eq!(
        v,
        vec![
            row("tcp", "::", 22, "s1.service"),
            row("udp", "0.0.0.0", 22, ""),
            row("udp", "127.0.0.1", 323, ""),
            row("tcp", "::1", 631, ""),
        ]
    );
}

#[test]
fn a_service_is_disabled() {
    assert!(safe_unit("getty@tty1.service"));
    assert!(!safe_unit("sshd"));
    assert!(!safe_unit("a b.service"));
    assert!(!safe_unit(""));
    assert!(safe_unit(&format!("{}.service", "a".repeat(120))));
    assert!(!safe_unit(&format!("{}.service", "a".repeat(121))));
    assert_eq!(
        line(&net_disable_service("sshd.service").unwrap()),
        "pkexec systemctl disable --now sshd.service"
    );
    assert_eq!(net_disable_service("; x.service").err(), Some("invalid unit".to_string()));
    assert_eq!(disabled("sshd.service", true), Ok(()));
    assert_eq!(disabled("sshd.service", false), Err("could not disable sshd.service".to_string()));
}

#[test]
fn a_port_is_blocked() {
    assert_eq!(
        line(&net_block_port("udp", 5353).unwrap()),
        "pkexec bash -c nft add table inet arxos_harden 2>/dev/null; \
         nft 'add chain inet arxos_harden input { type filter hook input priority 0 ; policy accept ; }' 2>/dev/null; \
         nft add rule inet arxos_harden input udp dport 5353 drop"
    );
    for (proto, port) in [("icmp", 1), ("tcp", 0), ("tcp", 65536)] {
        assert_eq!(net_block_port(proto, port).err(), Some("invalid port".to_string()));
    }
    assert!(net_block_port("tcp", 65535).is_ok());
    assert_eq!(blocked("tcp", 22, true), Ok(()));
    assert_eq!(blocked("tcp", 22, false), Err("could not block tcp/22".to_string()));
}
