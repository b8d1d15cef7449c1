//! The virtual machines panel: what is installed and ready, and the scripts that set it up.
use vstd::prelude::*;
use vstd::string::StringExecFns;

use crate::anond::{law_lists, listed, lists};
use crate::panel::{closing, is_inert, is_meta, wrap_close};
use crate::reading::law_carries;
use crate::text::{
    Text, alnum, begins, carries, chars_of, contains, ends_with, finishes, is_alnum, opt_text, same,
    split_words, trim, trimmed, words,
};

verus! {

/// Whether a user is in a group, out of what `id -nG` prints.
pub fn in_group(groups: &str, group: &str) -> (r: bool)
    ensures
        r == lists(words(groups@), group@),
{
    listed(split_words(groups).as_slice(), group)
}

pub open spec fn headers_of(release: Text) -> Text {
    if finishes(trimmed(release), "-arxos-rt"@) {
        "linux-arxos-rt-headers"@
    } else if finishes(trimmed(release), "-arxos"@) {
        "linux-arxos-headers"@
    } else {
        "linux-headers"@
    }
}

/// The package with the headers of the kernel that runs, out of what `uname -r` prints.
pub fn headers_package(release: &str) -> (s: &'static str)
    ensures
        s@ == headers_of(release@),
{
    let rel = trim(release);
    if ends_with(rel.as_str(), "-arxos-rt") {
        "linux-arxos-rt-headers"
    } else if ends_with(rel.as_str(), "-arxos") {
        "linux-arxos-headers"
    } else {
        "linux-headers"
    }
}

/// An engine that runs virtual machines.
pub struct VmEngine {
    pub id: String,
    pub name: String,
    pub installed: bool,
    /// It is installed and fully set up.
    pub ready: bool,
    /// What is missing, or that nothing is.
    pub detail: String,
}

/// The model of a [`VmEngine`].
#[verifier::ext_equal]
pub struct VmEngineView {
    pub id: Text,
    pub name: Text,
    pub installed: bool,
    pub ready: bool,
    pub detail: Text,
}

impl View for VmEngine {
    type V = VmEngineView;

    open spec fn view(&self) -> VmEngineView {
        VmEngineView {
            id: self.id@,
            name: self.name@,
            installed: self.installed,
            ready: self.ready,
            detail: self.detail@,
        }
    }
}

pub open spec fn engine_views(v: Seq<VmEngine>) -> Seq<VmEngineView> {
    v.map_values(|e: VmEngine| e@)
}

/// What the host tells of the engines: which programs there are, whether `libvirtd` runs, the
/// modules of the kernel, and the groups of the user.
pub struct VmFacts<'a> {
    pub qemu: bool,
    pub virsh: bool,
    pub libvirtd: bool,
    pub vboxmanage: bool,
    pub vmware: bool,
    pub modules: &'a str,
    pub groups: &'a str,
}

pub open spec fn engines_of(f: VmFacts) -> Seq<VmEngineView> {
    let qemu_ready = f.qemu && f.virsh && f.libvirtd && lists(words(f.groups@), "libvirt"@);
    let vbox_ready = f.vboxmanage && carries(f.modules@, "vboxdrv"@) && lists(
        words(f.groups@),
        "vboxusers"@,
    );
    seq![
        VmEngineView {
            id: "qemu"@,
            name: "QEMU/KVM"@,
            installed: f.qemu,
            ready: qemu_ready,
            detail: if qemu_ready {
                "libvirtd running, ready to launch VMs"@
            } else if f.qemu {
                "installed, but needs group/service setup"@
            } else {
                "not installed"@
            },
        },
        VmEngineView {
            id: "virtualbox"@,
            name: "VirtualBox"@,
            installed: f.vboxmanage,
            ready: vbox_ready,
            detail: if vbox_ready {
                "kernel module loaded, ready to launch VMs"@
            } else if f.vboxmanage {
                "installed, but the kernel module or group membership is missing"@
            } else {
                "not installed"@
            },
        },
        VmEngineView {
            id: "vmware"@,
            name: "VMware Workstation"@,
            installed: f.vmware,
            ready: f.vmware,
            detail: if f.vmware {
                "installed"@
            } else {
                "AUR-only — this builds from source, no prebuilt package exists"@
            },
        },
    ]
}

fn engine(id: &str, name: &str, installed: bool, ready: bool, detail: &str) -> (e: VmEngine)
    ensures
        e@ == (VmEngineView { id: id@, name: name@, installed, ready, detail: detail@ }),
{
    VmEngine {
        id: id.to_owned(),
        name: name.to_owned(),
        installed,
        ready,
        detail: detail.to_owned(),
    }
}

/// The engines, with what is missing of each.
pub fn vm_status(f: &VmFacts) -> (v: Vec<VmEngine>)
    ensures
        engine_views(v@) == engines_of(*f),
{
    proof {
        reveal_strlit("vboxdrv");
    }
    let qemu_ready = f.qemu && f.virsh && f.libvirtd && in_group(f.groups, "libvirt");
    let qemu_detail = if qemu_ready {
        "libvirtd running, ready to launch VMs"
    } else if f.qemu {
        "installed, but needs group/service setup"
    } else {
        "not installed"
    };
    let vbox_ready = f.vboxmanage && contains(f.modules, "vboxdrv") && in_group(
        f.groups,
        "vboxusers",
    );
    let vbox_detail = if vbox_ready {
        "kernel module loaded, ready to launch VMs"
    } else if f.vboxmanage {
        "installed, but the kernel module or group membership is missing"
    } else {
        "not installed"
    };
    let vmware_detail = if f.vmware {
        "installed"
    } else {
        "AUR-only — this builds from source, no prebuilt package exists"
    };
    let v: Vec<VmEngine> = vec![
        engine("qemu", "QEMU/KVM", f.qemu, qemu_ready, qemu_detail),
        engine("virtualbox", "VirtualBox", f.vboxmanage, vbox_ready, vbox_detail),
        engine("vmware", "VMware Workstation", f.vmware, f.vmware, vmware_detail),
    ];
    assert(engine_views(v@) =~= engines_of(*f));
    v
}

/// No engine is ready that is not installed.
pub proof fn law_ready_means_installed(f: VmFacts, i: int)
    requires
        0 <= i < engines_of(f).len(),
        engines_of(f)[i].ready,
    ensures
        engines_of(f)[i].installed,
{
}

pub open spec fn user_char(c: char) -> bool {
    is_alnum(c) || c == '_' || c == '-'
}

pub open spec fn is_user(user: Text) -> bool {
    forall|i: int| 0 <= i < user.len() ==> user_char(#[trigger] user[i])
}

fn safe_user(user: &str) -> (r: bool)
    ensures
        r == is_user(user@),
{
    let v = chars_of(user);
    let mut i: usize = 0;
    while i < v.len()
        invariant
            i <= v@.len(),
            v@ == user@,
            forall|k: int| 0 <= k < i ==> user_char(#[trigger] v@[k]),
        decreases v@.len() - i,
    {
        let c = v[i];
        if !(alnum(c) || c == '_' || c == '-') {
            assert(!user_char(user@[i as int]));
            return false;
        }
        i += 1;
    }
    true
}

/// The script that sets an engine up for a user.
pub open spec fn setup_script(target: Text, user: Text, release: Text) -> Option<Text> {
    if target == "qemu"@ {
        Some(
            "set -e; echo '== QEMU/KVM + virt-manager =='; sudo pacman -S --needed --noconfirm qemu-full virt-manager virt-viewer dnsmasq vde2 bridge-utils openbsd-netcat dmidecode; sudo usermod -aG libvirt,kvm "@
                + user
                + "; sudo systemctl enable --now libvirtd.service; sudo virsh net-autostart default 2>/dev/null || true; sudo virsh net-start default 2>/dev/null || true; echo; echo 'Done. Log out and back in for the new group membership to take effect.'"@,
        )
    } else if target == "virtualbox"@ {
        Some(
            "set -e; echo '== VirtualBox =='; sudo pacman -S --needed --noconfirm "@ + headers_of(
                release,
            ) + " virtualbox virtualbox-host-dkms; sudo usermod -aG vboxusers "@ + user
                + "; sudo modprobe vboxdrv; echo; echo 'Done. Log out and back in for the new group membership to take effect.'"@,
        )
    } else if target == "vmware"@ {
        Some(
            "set -e; echo '== VMware Workstation (AUR build — this compiles from source and takes a while) =='; arx aur vmware-workstation"@,
        )
    } else {
        None
    }
}

/// Why an engine cannot be set up, where it cannot.
pub open spec fn setup_fault(target: Text, user: Option<Text>) -> Option<Text> {
    match user {
        None => Some("could not determine the current user"@),
        Some(u) => if !is_user(u) {
            Some("invalid username"@)
        } else if setup_script(target, u, seq![]) is None {
            Some("unknown VM engine"@)
        } else {
            None
        },
    }
}

/// The script that sets an engine up for a user, given what `uname -r` prints.
pub fn vm_setup(target: &str, user: Option<String>, release: &str) -> (r: Result<String, String>)
    ensures
        match setup_fault(target@, opt_text(user)) {
            Some(f) => r matches Err(e) && e@ == f,
            None => r matches Ok(s) && s@ == closing(
                setup_script(target@, user->0@, release@)->0,
            ),
        },
{
    let user = match user {
        Some(u) => u,
        None => {
            return Err("could not determine the current user".to_owned());
        },
    };
    if !safe_user(user.as_str()) {
        return Err("invalid username".to_owned());
    }
    let script = if same(target, "qemu") {
        "set -e; echo '== QEMU/KVM + virt-manager =='; sudo pacman -S --needed --noconfirm qemu-full virt-manager virt-viewer dnsmasq vde2 bridge-utils openbsd-netcat dmidecode; sudo usermod -aG libvirt,kvm ".to_owned().concat(
        user.as_str()).concat(
            "; sudo systemctl enable --now libvirtd.service; sudo virsh net-autostart default 2>/dev/null || true; sudo virsh net-start default 2>/dev/null || true; echo; echo 'Done. Log out and back in for the new group membership to take effect.'",
        )
    } else if same(target, "virtualbox") {
        "set -e; echo '== VirtualBox =='; sudo pacman -S --needed --noconfirm ".to_owned().concat(
            headers_package(release),
        ).concat(" virtualbox virtualbox-host-dkms; sudo usermod -aG vboxusers ").concat(
            user.as_str(),
        ).concat(
            "; sudo modprobe vboxdrv; echo; echo 'Done. Log out and back in for the new group membership to take effect.'",
        )
    } else if same(target, "vmware") {
        "set -e; echo '== VMware Workstation (AUR build — this compiles from source and takes a while) =='; arx aur vmware-workstation".to_owned()
    } else {
        return Err("unknown VM engine".to_owned());
    };
    Ok(wrap_close(script.as_str()))
}

/// A user that passes holds nothing that a shell would interpret.
pub proof fn law_users_are_inert(user: Text)
    requires
        is_user(user),
    ensures
        is_inert(user),
{
    assert forall|i: int| 0 <= i < user.len() implies !is_meta(#[trigger] user[i]) by {
        assert(user_char(user[i]));
    }
}

/// The headers go by how the release of the kernel ends, without the white space around it: those of
/// the realtime flavor, those of the plain one, else those of the distribution.
pub proof fn law_headers(release: Text)
    ensures
        finishes(trimmed(release), "-arxos-rt"@) ==> headers_of(release)
            == "linux-arxos-rt-headers"@,
        finishes(trimmed(release), "-arxos"@) ==> headers_of(release) == "linux-arxos-headers"@,
        !finishes(trimmed(release), "-arxos-rt"@) && !finishes(trimmed(release), "-arxos"@)
            ==> headers_of(release) == "linux-headers"@,
{
    reveal_strlit("-arxos-rt");
    reveal_strlit("-arxos");
    let s = trimmed(release);
    if finishes(s, "-arxos-rt"@) && finishes(s, "-arxos"@) {
        assert(s.skip(s.len() - 9)[8] == 't');
        assert(s.skip(s.len() - 6)[5] == 's');
        assert(s[s.len() - 1] == 't' && s[s.len() - 1] == 's');
    }
}

/// An engine is ready only where all that it needs is there, and is shown as installed wherever its
/// program is; what is said of it follows from the two.
pub proof fn law_engines(f: VmFacts)
    ensures
        ({
            let v = engines_of(f);
            let groups = words(f.groups@);
            &&& v.len() == 3
            &&& v[0].id == "qemu"@ && v[1].id == "virtualbox"@ && v[2].id == "vmware"@
            &&& v[0].name == "QEMU/KVM"@ && v[1].name == "VirtualBox"@
            &&& v[2].name == "VMware Workstation"@
            &&& v[0].installed == f.qemu && v[1].installed == f.vboxmanage
            &&& v[2].installed == f.vmware
            &&& v[0].ready <==> f.qemu && f.virsh && f.libvirtd && groups.contains("libvirt"@)
            &&& v[1].ready <==> f.vboxmanage && carries(f.modules@, "vboxdrv"@) && groups.contains(
                "vboxusers"@,
            )
            &&& v[2].ready <==> f.vmware
            &&& v[0].ready ==> v[0].detail == "libvirtd running, ready to launch VMs"@
            &&& !v[0].ready && v[0].installed ==> v[0].detail
                == "installed, but needs group/service setup"@
            &&& !v[0].installed ==> v[0].detail == "not installed"@
            &&& v[1].ready ==> v[1].detail == "kernel module loaded, ready to launch VMs"@
            &&& !v[1].ready && v[1].installed ==> v[1].detail
                == "installed, but the kernel module or group membership is missing"@
            &&& !v[1].installed ==> v[1].detail == "not installed"@
            &&& v[2].installed ==> v[2].detail == "installed"@
            &&& !v[2].installed ==> v[2].detail
                == "AUR-only — this builds from source, no prebuilt package exists"@
        }),
{
    law_lists(words(f.groups@), "libvirt"@);
    law_lists(words(f.groups@), "vboxusers"@);
}

/// A user is accepted exactly where the name is made of letters, digits, underscores and dashes; an
/// engine can be set up exactly for such a user, and where it is one of three. What stands in the
/// way is told in this order: no user, the name, the engine.
pub proof fn law_who_can_set_up_what(target: Text, user: Option<Text>)
    ensures
        user is None ==> setup_fault(target, user) == Some("could not determine the current user"@),
        user matches Some(u) ==> {
            let accepted = forall|i: int|
                0 <= i < u.len() ==> {
                    ||| '0' <= #[trigger] u[i] <= '9'
                    ||| 'a' <= u[i] <= 'z'
                    ||| 'A' <= u[i] <= 'Z'
                    ||| u[i] == '_'
                    ||| u[i] == '-'
                };
            let known = target == "qemu"@ || target == "virtualbox"@ || target == "vmware"@;
            &&& !accepted ==> setup_fault(target, user) == Some("invalid username"@)
            &&& accepted && !known ==> setup_fault(target, user) == Some("unknown VM engine"@)
            &&& accepted && known ==> setup_fault(target, user) is None
        },
{
    if let Some(u) = user {
        assert forall|i: int| 0 <= i < u.len() implies (user_char(#[trigger] u[i]) <==> {
            ||| '0' <= u[i] <= '9'
            ||| 'a' <= u[i] <= 'z'
            ||| 'A' <= u[i] <= 'Z'
            ||| u[i] == '_'
            ||| u[i] == '-'
        }) by {}
    }
}

/// Setting up an engine puts the user into the groups that its readiness depends on, and installs
/// the headers of the kernel that runs where it has a module to build.
pub proof fn law_the_user_joins_the_groups(user: Text, release: Text)
    ensures
        setup_script("qemu"@, user, release) matches Some(s) && carries(
            s,
            "sudo usermod -aG libvirt,kvm "@ + user + "; "@,
        ),
        setup_script("virtualbox"@, user, release) matches Some(s) && carries(
            s,
            "sudo usermod -aG vboxusers "@ + user + "; "@,
        ) && carries(s, headers_of(release)),
        setup_script("vmware"@, user, release) is Some,
{
    reveal_strlit("qemu");
    reveal_strlit("virtualbox");
    reveal_strlit("vmware");
    assert("qemu"@.len() == 4 && "virtualbox"@.len() == 10 && "vmware"@.len() == 6);
    lemma_qemu_script(user, release);
    lemma_virtualbox_script(user, release);
}

proof fn lemma_between(a: Text, m: Text, n: Text, user: Text, z: Text)
    requires
        finishes(a, m),
        begins(z, n),
    ensures
        carries(a + user + z, m + user + n),
{
    let cut = a.len() - m.len();
    assert(a =~= a.take(cut) + m);
    assert(z =~= n + z.skip(n.len() as int));
    assert(a + user + z =~= a.take(cut) + (m + user + n) + z.skip(n.len() as int));
    law_carries(a + user + z, m + user + n);
}

proof fn lemma_qemu_script(user: Text, release: Text)
    ensures
        setup_script("qemu"@, user, release) matches Some(s) && carries(
            s,
            "sudo usermod -aG libvirt,kvm "@ + user + "; "@,
        ),
{
    let a =
        "set -e; echo '== QEMU/KVM + virt-manager =='; sudo pacman -S --needed --noconfirm qemu-full virt-manager virt-viewer dnsmasq vde2 bridge-utils openbsd-netcat dmidecode; sudo usermod -aG libvirt,kvm "@;
    let z =
        "; sudo systemctl enable --now libvirtd.service; sudo virsh net-autostart default 2>/dev/null || true; sudo virsh net-start default 2>/dev/null || true; echo; echo 'Done. Log out and back in for the new group membership to take effect.'"@;
    reveal_strlit(
        "set -e; echo '== QEMU/KVM + virt-manager =='; sudo pacman -S --needed --noconfirm qemu-full virt-manager virt-viewer dnsmasq vde2 bridge-utils openbsd-netcat dmidecode; sudo usermod -aG libvirt,kvm ",
    );
    reveal_strlit(
        "; sudo systemctl enable --now libvirtd.service; sudo virsh net-autostart default 2>/dev/null || true; sudo virsh net-start default 2>/dev/null || true; echo; echo 'Done. Log out and back in for the new group membership to take effect.'",
    );
    reveal_strlit("sudo usermod -aG libvirt,kvm ");
    reveal_strlit("; ");
    let m = "sudo usermod -aG libvirt,kvm "@;
    assert(a.skip(a.len() - m.len()) =~= m);
    assert(z.take(2) =~= "; "@);
    lemma_between(a, m, "; "@, user, z);
}

proof fn lemma_virtualbox_script(user: Text, release: Text)
    ensures
        setup_script("virtualbox"@, user, release) matches Some(s) && carries(
            s,
            "sudo usermod -aG vboxusers "@ + user + "; "@,
        ) && carries(s, headers_of(release)),
{
    reveal_strlit("qemu");
    reveal_strlit("virtualbox");
    assert("qemu"@.len() == 4 && "virtualbox"@.len() == 10);
    let a = "set -e; echo '== VirtualBox =='; sudo pacman -S --needed --noconfirm "@;
    let h = headers_of(release);
    let b = " virtualbox virtualbox-host-dkms; sudo usermod -aG vboxusers "@;
    let z =
        "; sudo modprobe vboxdrv; echo; echo 'Done. Log out and back in for the new group membership to take effect.'"@;
    reveal_strlit(" virtualbox virtualbox-host-dkms; sudo usermod -aG vboxusers ");
    reveal_strlit(
        "; sudo modprobe vboxdrv; echo; echo 'Done. Log out and back in for the new group membership to take effect.'",
    );
    reveal_strlit("sudo usermod -aG vboxusers ");
    reveal_strlit("; ");
    let m = "sudo usermod -aG vboxusers "@;
    let front = a + h + b;
    assert(b.skip(b.len() - m.len()) =~= m);
    assert(front.skip(front.len() - m.len()) =~= m);
    assert(z.take(2) =~= "; "@);
    lemma_between(front, m, "; "@, user, z);
    let s = a + h + b + user + z;
    assert(s == front + user + z);
    assert(s =~= a + h + (b + user + z));
    law_carries(s, h);
}

/// What setting up an engine runs, for every user and kernel: nothing of it depends on anything else.
pub proof fn law_setup_scripts(user: Text, release: Text)
    ensures
        setup_script("qemu"@, user, release) == Some(
            "set -e; echo '== QEMU/KVM + virt-manager =='; sudo pacman -S --needed --noconfirm qemu-full virt-manager virt-viewer dnsmasq vde2 bridge-utils openbsd-netcat dmidecode; sudo usermod -aG libvirt,kvm "@
                + user
                + "; sudo systemctl enable --now libvirtd.service; sudo virsh net-autostart default 2>/dev/null || true; sudo virsh net-start default 2>/dev/null || true; echo; echo 'Done. Log out and back in for the new group membership to take effect.'"@,
        ),
        setup_script("virtualbox"@, user, release) == Some(
            "set -e; echo '== VirtualBox =='; sudo pacman -S --needed --noconfirm "@ + headers_of(
                release,
            ) + " virtualbox virtualbox-host-dkms; sudo usermod -aG vboxusers "@ + user
                + "; sudo modprobe vboxdrv; echo; echo 'Done. Log out and back in for the new group membership to take effect.'"@,
        ),
        setup_script("vmware"@, user, release) == Some(
            "set -e; echo '== VMware Workstation (AUR build — this compiles from source and takes a while) =='; arx aur vmware-workstation"@,
        ),
{
    reveal_strlit("qemu");
    reveal_strlit("virtualbox");
    reveal_strlit("vmware");
    assert("qemu"@.len() == 4 && "virtualbox"@.len() == 10 && "vmware"@.len() == 6);
}

} // verus!
