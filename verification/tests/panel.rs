use arxos::community::{community_changed, community_set};
use arxos::panel::{
    action_args, anond_action, anond_action_streamed, arxonion_launch_browser, arxonion_run_app, arxonion_shell,
    arxonion_toggle, browser_harden, browser_status, browsers, kernel_install, kernel_remove, manifest_command,
    not_started, run_private_curl, safe_token, spawn_terminal, streamed_code, sync_databases, system_update, weapons_browse, weapons_install,
    weapons_menu_rebuild, weapons_remove, wrap_close, Found, Terminals,
};
use arxos::plan::Command;
use arxos::vm_tools::{headers_package, in_group, vm_setup, vm_status, VmFacts};
use arxos::wallpaper::{
    engine, engine_outcome, wallpaper_cycle_set, wallpaper_cycle_status, wallpaper_fetch, wallpaper_set,
    wallpaper_was_set, wallpapers_list,
};

fn line(c: &Command) -> String {
    let mut s = c.bin.clone();
    for a in &c.args {
        s.push(' ');
        s.push_str(a);
    }
    s
}

const CLOSE: &str = "; __rc=$?; echo; if [ $__rc -eq 0 ]; then echo '  ✔ done — closing…'; sleep 3; \
     else echo '  ✖ finished with errors'; read -r -t 120 -p '  press Enter to close… ' _; fi";

fn closing(script: &str) -> String {
    format!("{script}{CLOSE}")
}

#[test]
fn a_terminal_closes_itself() {
    assert_eq!(wrap_close("arx upgrade"), closing("arx upgrade"));
    let t = |konsole: bool, xterm: bool, any: bool| Terminals { konsole, xterm, any };
    assert_eq!(line(&spawn_terminal(t(true, true, true), "ls").unwrap()), "konsole -e bash -c ls");
    assert_eq!(line(&spawn_terminal(t(false, true, true), "ls").unwrap()), "xterm -e bash -c ls");
    assert_eq!(line(&spawn_terminal(t(false, false, true), "ls").unwrap()), "x-terminal-emulator -e bash -c ls");
    assert_eq!(
        spawn_terminal(t(false, false, false), "ls").err(),
        Some("no terminal emulator found".to_string())
    );
}

#[test]
fn tokens_are_checked() {
    assert!(safe_token("web app_2-x"));
    assert!(!safe_token(""));
    assert!(!safe_token("a;b"));
    assert!(!safe_token("é"));
    assert!(safe_token(&"a".repeat(40)));
    assert!(!safe_token(&"a".repeat(41)));
}

#[test]
fn arx_is_launched() {
    assert_eq!(weapons_install("web  app"), Ok(closing("arx weapons install web app")));
    assert_eq!(weapons_remove("web"), Ok(closing("arx weapons remove web")));
    assert_eq!(weapons_install("$(x)"), Err("invalid category".to_string()));
    assert_eq!(weapons_remove(""), Err("invalid category".to_string()));
    assert_eq!(weapons_browse(), closing("arx weapons list-all"));
    assert_eq!(weapons_menu_rebuild(), closing("sudo arx weapons menu"));
    assert_eq!(system_update(), closing("arx upgrade"));
    assert_eq!(sync_databases(), closing("arx refresh"));
    assert_eq!(kernel_install("linux-arxos"), Ok(closing("arx kernel install linux-arxos")));
    assert_eq!(kernel_remove("linux-arxos-rt"), Ok(closing("arx kernel remove linux-arxos-rt")));
    assert_eq!(kernel_install("a|b"), Err("invalid flavor".to_string()));
    assert_eq!(kernel_remove("a|b"), Err("invalid flavor".to_string()));
    assert_eq!(browser_harden(), closing("sudo /usr/lib/arxos/harden-browsers.sh"));
}

#[test]
fn only_known_actions_reach_the_daemon() {
    assert_eq!(anond_action("up"), Ok(closing("sudo anond up")));
    assert_eq!(anond_action("up-i2p"), Ok(closing("sudo anond up --i2p")));
    assert_eq!(anond_action("new-identity"), Ok(closing("sudo anond new-identity")));
    assert_eq!(anond_action("status"), Err("invalid action".to_string()));
    assert_eq!(action_args("verify"), Ok(vec!["verify".to_string()]));
    assert_eq!(line(&anond_action_streamed("down").unwrap()), "pkexec anond down");
    assert_eq!(line(&anond_action_streamed("up-i2p").unwrap()), "pkexec anond up --i2p");
    assert_eq!(anond_action_streamed("x").err(), Some("invalid action".to_string()));
    assert_eq!((streamed_code(Some(3)), streamed_code(None)), (3, -1));
    assert_eq!(not_started("No such file"), "could not start anond: No such file");
}

#[test]
fn isolation_is_driven() {
    assert_eq!(arxonion_toggle(true), closing("sudo arxonion up"));
    assert_eq!(arxonion_toggle(false), closing("sudo arxonion down"));
    assert_eq!(arxonion_shell(), "pkexec arxonion shell");
    assert_eq!(arxonion_launch_browser("Tor Browser"), Ok("pkexec arxonion run torbrowser-launcher".to_string()));
    assert_eq!(arxonion_launch_browser("Firefox"), Ok("pkexec arxonion run firefox".to_string()));
    assert_eq!(arxonion_launch_browser("firefox"), Err("unknown browser".to_string()));
}

#[test]
fn an_app_is_checked_and_run() {
    let script = "if ! ss -ltn 2>/dev/null | grep -q '127.0.0.1:9050'; then \
        echo '  Tor is not running yet — starting it (isolation needs Tor):'; \
        anond up --no-advice || exit 1; \
        fi; \
        arxonion run curl https://a.b/c";
    assert_eq!(
        arxonion_run_app("  curl https://a.b/c "),
        Ok(closing(&format!("sudo --preserve-env=DISPLAY,XAUTHORITY bash -c \"{script}\"")))
    );
    assert_eq!(arxonion_run_app(" \n"), Err("type an app or command to run in isolation".to_string()));
    assert_eq!(arxonion_run_app(&"a".repeat(201)), Err("command too long".to_string()));
    assert!(arxonion_run_app(&"a".repeat(200)).is_ok());
    assert_eq!(arxonion_run_app(&"é".repeat(101)), Err("command too long".to_string()));
    assert_eq!(
        arxonion_run_app("a; b"),
        Err("only letters, digits, spaces and . _ - / : = @ + are allowed".to_string())
    );
}

#[test]
fn installed_browsers_are_found() {
    let all = browsers();
    let names: Vec<&str> = all.iter().map(|b| b.name).collect();
    assert_eq!(
        names,
        vec!["Firefox", "Waterfox", "Brave", "LibreWolf", "Mullvad Browser", "Chromium", "Tor Browser"]
    );
    assert_eq!(all[0].bins, vec!["firefox", "firefox-esr", "firefox-bin"]);
    assert_eq!(all[2].roots, vec!["/etc/brave", "/opt/brave.com", "/usr/lib/brave-browser", "/usr/lib/brave-bin"]);
    let none = |b: &arxos::panel::Browser| Found {
        bins: b.bins.iter().map(|_| false).collect(),
        roots: b.roots.iter().map(|_| false).collect(),
    };
    let mut found: Vec<Found> = all.iter().map(none).collect();
    assert!(browser_status(&found).is_empty());
    found[0].bins[1] = true;
    found[4].roots[0] = true;
    assert_eq!(browser_status(&found), vec!["Firefox", "Mullvad Browser"]);
}

#[test]
fn a_fetch_goes_through_tor_where_it_can() {
    assert_eq!(line(&run_private_curl(true, &["-s", "x"])), "curl --socks5-hostname 127.0.0.1:9050 -s x");
    assert_eq!(line(&run_private_curl(false, &["-s", "x"])), "curl -s x");
    assert_eq!(
        line(&manifest_command(false)),
        "curl -fsSL --max-time 30 https://raw.githubusercontent.com/thearxos/arxos-kernels/main/kernels.json"
    );
}

#[test]
fn the_community_registry_is_switched() {
    assert_eq!(
        line(&community_set(true)),
        "pkexec bash -c mkdir -p /etc/arxos && : > /etc/arxos/community.enabled"
    );
    assert_eq!(line(&community_set(false)), "pkexec bash -c rm -f /etc/arxos/community.enabled");
    assert_eq!(community_changed(true, false), Ok(false));
    assert_eq!(community_changed(true, true), Ok(true));
    assert_eq!(
        community_changed(false, true),
        Err("could not change the community setting (elevation cancelled or failed)".to_string())
    );
}

#[test]
fn virtual_machines_are_reported() {
    let f = VmFacts {
        qemu: true,
        virsh: true,
        libvirtd: true,
        vboxmanage: true,
        vmware: false,
        modules: "vboxnetflt 1\nvboxdrv 2\n",
        groups: "wheel libvirt\n",
    };
    let v: Vec<(String, bool, bool, String)> =
        vm_status(&f).into_iter().map(|e| (e.id, e.installed, e.ready, e.detail)).collect();
    assert_eq!(v[0], ("qemu".to_string(), true, true, "libvirtd running, ready to launch VMs".to_string()));
    assert_eq!(
        v[1],
        (
            "virtualbox".to_string(),
            true,
            false,
            "installed, but the kernel module or group membership is missing".to_string()
        )
    );
    assert_eq!(
        v[2],
        (
            "vmware".to_string(),
            false,
            false,
            "AUR-only — this builds from source, no prebuilt package exists".to_string()
        )
    );
    let none = VmFacts { qemu: false, virsh: true, vboxmanage: false, vmware: true, groups: "libvirt vboxusers", ..f };
    let d: Vec<(bool, String)> = vm_status(&none).into_iter().map(|e| (e.ready, e.detail)).collect();
    assert_eq!(
        d,
        vec![
            (false, "not installed".to_string()),
            (false, "not installed".to_string()),
            (true, "installed".to_string())
        ]
    );
    let part = VmFacts { qemu: true, libvirtd: false, vboxmanage: true, ..none };
    let d: Vec<(bool, String)> = vm_status(&part).into_iter().map(|e| (e.ready, e.detail)).collect();
    assert_eq!(d[0], (false, "installed, but needs group/service setup".to_string()));
    assert_eq!(d[1], (true, "kernel module loaded, ready to launch VMs".to_string()));
}

#[test]
fn a_virtual_machine_is_set_up() {
    assert!(in_group("wheel libvirt\n", "libvirt"));
    assert!(!in_group("wheel libvirtx\n", "libvirt"));
    assert_eq!(headers_package("6.9.1-arxos-rt"), "linux-arxos-rt-headers");
    assert_eq!(headers_package("6.9.1-arxos"), "linux-arxos-headers");
    assert_eq!(headers_package("6.9.1-arch1-1"), "linux-headers");
    let me = || Some("ana_2".to_string());
    assert_eq!(
        vm_setup("virtualbox", me(), "6.9.1-arxos"),
        Ok(closing(
            "set -e; echo '== VirtualBox =='; \
             sudo pacman -S --needed --noconfirm linux-arxos-headers virtualbox virtualbox-host-dkms; \
             sudo usermod -aG vboxusers ana_2; \
             sudo modprobe vboxdrv; \
             echo; echo 'Done. Log out and back in for the new group membership to take effect.'"
        ))
    );
    assert_eq!(
        vm_setup("qemu", me(), ""),
        Ok(closing(
            "set -e; echo '== QEMU/KVM + virt-manager =='; \
             sudo pacman -S --needed --noconfirm qemu-full virt-manager virt-viewer dnsmasq vde2 bridge-utils openbsd-netcat dmidecode; \
             sudo usermod -aG libvirt,kvm ana_2; \
             sudo systemctl enable --now libvirtd.service; \
             sudo virsh net-autostart default 2>/dev/null || true; \
             sudo virsh net-start default 2>/dev/null || true; \
             echo; echo 'Done. Log out and back in for the new group membership to take effect.'"
        ))
    );
    assert_eq!(
        vm_setup("vmware", me(), ""),
        Ok(closing(
            "set -e; echo '== VMware Workstation (AUR build — this compiles from source and takes a while) =='; arx aur vmware-workstation"
        ))
    );
    assert_eq!(vm_setup("qemu", None, ""), Err("could not determine the current user".to_string()));
    assert_eq!(vm_setup("qemu", Some("a;b".to_string()), ""), Err("invalid username".to_string()));
    assert_eq!(vm_setup("xen", me(), ""), Err("unknown VM engine".to_string()));
}

#[test]
fn the_wallpaper_engine_is_driven() {
    assert_eq!(engine(true, true), Ok("/usr/local/bin/arxos-wallpaper-engine"));
    assert_eq!(engine(false, true), Ok("arxos-wallpaper-engine"));
    assert_eq!(engine(false, false), Err("arxos-wallpaper-engine is not installed".to_string()));
    assert_eq!(line(&wallpapers_list("e")), "e --list-json");
    assert_eq!(engine_outcome(true, "x"), Ok(()));
    assert_eq!(engine_outcome(false, " no dir \n"), Err("no dir".to_string()));
    assert_eq!(line(&wallpaper_set("e", "/a.png", None)), "e --set /a.png");
    assert_eq!(line(&wallpaper_set("e", "/a.png", Some("zoomed"))), "e --set /a.png --style zoomed");
    assert_eq!(wallpaper_was_set(true), Ok(()));
    assert_eq!(wallpaper_was_set(false), Err("arxos-wallpaper --set failed".to_string()));
    assert_eq!(line(&wallpaper_fetch("e", 25, "both").unwrap()), "e --fetch --limit 25 --source both");
    assert_eq!(
        wallpaper_fetch("e", 25, "web").err(),
        Some("source must be curated, unsplash, or both".to_string())
    );
    assert_eq!(line(&wallpaper_cycle_status("e")), "e --cycle-status");
    assert_eq!(line(&wallpaper_cycle_set("e", Some(true), Some(false))), "e --cycle-set --on --shuffle-off");
    assert_eq!(line(&wallpaper_cycle_set("e", Some(false), Some(true))), "e --cycle-set --off --shuffle-on");
    assert_eq!(line(&wallpaper_cycle_set("e", None, None)), "e --cycle-set");
}
