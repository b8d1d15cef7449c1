use arxos::net::{net_status, Counter, Link, Rated};

fn rated(name: &str, up: bool, rx_bps: u64) -> Rated {
    Rated {
        counter: Counter { name: name.to_string(), rx: 0, tx: 0 },
        rx_bps,
        tx_bps: 0,
        link: Link {
            operstate: if up { "up\n" } else { "down\n" }.to_string(),
            carrier: String::new(),
            speed: String::new(),
            wireless: false,
            device: false,
        },
    }
}

#[test]
fn connected_interfaces_come_first_then_by_name() {
    let v = vec![
        rated("wlan0", false, 1),
        rated("eth1", true, 2),
        rated("eth0", true, 3),
        rated("docker0", false, 4),
        rated("eth0", true, 5),
    ];
    let addrs = "2: eth0    inet 10.0.0.2/24\n";
    let shown: Vec<(String, String, u64)> =
        net_status(&v, addrs).into_iter().map(|i| (i.name, i.ip, i.rx_bps)).collect();
    let want: Vec<(String, String, u64)> = [
        ("eth0", "10.0.0.2", 3),
        ("eth0", "10.0.0.2", 5),
        ("eth1", "", 2),
        ("docker0", "", 4),
        ("wlan0", "", 1),
    ]
    .iter()
    .map(|(n, a, r)| (n.to_string(), a.to_string(), *r))
    .collect();
    assert_eq!(shown, want);
}
