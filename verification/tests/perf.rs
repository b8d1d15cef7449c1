use arxos::perf::{
    applied, cpu_temp_c, khz, list, perf_apply_profile, perf_set_epp, perf_set_governor, perf_set_turbo, perf_status,
    stat_sample, PerfSources,
};
use arxos::plan::Command;

fn line(c: &Command) -> String {
    let mut s = c.bin.clone();
    for a in &c.args {
        s.push(' ');
        s.push_str(a);
    }
    s
}

fn everywhere(attr: &str, value: &str) -> String {
    format!(
        "pkexec bash -c for f in /sys/devices/system/cpu/cpu*/cpufreq/{attr}; do printf '%s' '{value}' > \"$f\" 2>/dev/null; done"
    )
}

const NO_TURBO: &str = "pkexec bash -c printf '%s' '0' > '/sys/devices/system/cpu/intel_pstate/no_turbo'";

#[test]
fn processor_times_are_sampled() {
    let v: Vec<(u128, u128)> = stat_sample("cpu  9 9 9 9\ncpu0 1 2 3 4 5 x 6\ncpu1 7\ncpux 1\nintr 5\n")
        .into_iter()
        .map(|t| (t.idle, t.total))
        .collect();
    assert_eq!(v, vec![(9, 21), (0, 7)]);
}

#[test]
fn the_package_is_preferred_to_the_hottest_zone() {
    let z = |ty: &str, t: Option<&str>| (ty.to_string(), t.map(String::from));
    assert_eq!(cpu_temp_c(&vec![z("acpitz\n", Some("90000\n")), z("x86_pkg_temp\n", Some("45500\n"))]), 45);
    assert_eq!(cpu_temp_c(&vec![z("a", Some("40000")), z("b", Some("52999")), z("coretemp", None)]), 52);
    assert_eq!(cpu_temp_c(&vec![z("a", Some("-1500"))]), -1);
    assert_eq!(cpu_temp_c(&vec![z("a", Some("hot"))]), 0);
    assert_eq!(cpu_temp_c(&vec![]), 0);
    assert_eq!(khz("3400000\n"), 3400);
    assert_eq!(khz(""), 0);
    assert_eq!(list(" a b\n"), vec!["a", "b"]);
}

#[test]
fn the_processor_is_described() {
    let s = PerfSources {
        driver: "intel_pstate\n",
        governor: "powersave\n",
        governors: "performance powersave\n",
        epp: "power\n",
        epps: "performance power\n",
        min_freq: "800000\n",
        max_freq: "4700000\n",
        hw_max_freq: "4800000\n",
        no_turbo: Some("0\n"),
        boost: Some("0\n"),
        stat_before: "cpu0 100 0 0 100 0\ncpu1 50 0 0 50 0\n",
        stat_after: "cpu0 130 0 0 110 0\ncpu1 50 0 0 50 0\ncpu2 1 0 0 1 0\n",
    };
    let freqs = vec!["2400000\n".to_string(), String::new(), "800000".to_string()];
    let r = perf_status(&s, &freqs, &vec![]);
    assert_eq!((r.driver.as_str(), r.governor.as_str(), r.epp.as_str()), ("intel_pstate", "powersave", "power"));
    assert_eq!(r.governors, vec!["performance", "powersave"]);
    assert_eq!(r.epps, vec!["performance", "power"]);
    assert_eq!((r.min_mhz, r.max_mhz, r.hw_max_mhz), (800, 4700, 4800));
    assert_eq!((r.turbo, r.turbo_supported, r.temp_c), (true, true, 0));
    let cores: Vec<(usize, u64, u8)> = r.cores.iter().map(|c| (c.id, c.mhz, c.load)).collect();
    assert_eq!(cores, vec![(0, 2400, 75), (1, 0, 0), (2, 800, 0)]);
    let r = perf_status(&PerfSources { no_turbo: None, ..s }, &freqs, &vec![]);
    assert_eq!((r.turbo, r.turbo_supported), (false, true));
    let none = PerfSources { no_turbo: None, boost: None, ..s };
    let r = perf_status(&none, &freqs, &vec![]);
    assert_eq!((r.turbo, r.turbo_supported), (false, false));
}

#[test]
fn only_what_is_offered_is_set() {
    assert_eq!(
        line(&perf_set_governor("powersave", "performance powersave\n").unwrap()),
        everywhere("scaling_governor", "powersave")
    );
    assert_eq!(
        perf_set_governor("fast", "performance powersave").err(),
        Some("this CPU does not offer the 'fast' governor".to_string())
    );
    assert_eq!(
        line(&perf_set_epp("power", "performance power").unwrap()),
        everywhere("energy_performance_preference", "power")
    );
    assert_eq!(
        perf_set_epp("x", "performance power").err(),
        Some("this CPU does not offer the 'x' preference".to_string())
    );
    assert_eq!(
        perf_set_epp("power", "").err(),
        Some("this CPU does not offer the 'power' preference".to_string())
    );
    assert_eq!(applied(true), Ok(()));
    assert_eq!(applied(false), Err("could not apply (authorization declined?)".to_string()));
}

#[test]
fn turbo_is_switched() {
    assert_eq!(line(&perf_set_turbo(true, true, true).unwrap()), NO_TURBO);
    assert_eq!(
        line(&perf_set_turbo(false, false, true).unwrap()),
        "pkexec bash -c printf '%s' '0' > '/sys/devices/system/cpu/cpufreq/boost'"
    );
    assert_eq!(
        perf_set_turbo(true, false, false).err(),
        Some("turbo/boost is not controllable on this CPU".to_string())
    );
}

#[test]
fn a_profile_takes_what_is_there() {
    let a = perf_apply_profile("balanced", "performance powersave", "performance balance_performance", true, false).unwrap();
    let required: Vec<String> = a.required.iter().map(line).collect();
    assert_eq!(
        required,
        vec![
            everywhere("scaling_governor", "powersave"),
            everywhere("energy_performance_preference", "balance_performance")
        ]
    );
    assert_eq!(line(&a.turbo.unwrap()), NO_TURBO);
    let a = perf_apply_profile("powersave", "performance", "", false, false).unwrap();
    assert!(a.required.is_empty() && a.turbo.is_none());
    let a = perf_apply_profile("performance", "schedutil performance", "power", false, true).unwrap();
    let required: Vec<String> = a.required.iter().map(line).collect();
    assert_eq!(required, vec![everywhere("scaling_governor", "performance")]);
    assert_eq!(perf_apply_profile("x", "", "", true, true).err(), Some("unknown profile".to_string()));
}
