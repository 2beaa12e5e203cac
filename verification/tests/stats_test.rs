use rustydocker::stats::{stats_totals, NetCounters, StatsCounters};

fn sample(cpu: u64, precpu: u64, sys: u64, presys: u64, cpus: u32, usage: u64, limit: u64) -> StatsCounters {
    StatsCounters {
        cpu_total: Some(cpu),
        precpu_total: Some(precpu),
        system_cpu: Some(sys),
        presystem_cpu: Some(presys),
        online_cpus: Some(cpus),
        memory_usage: Some(usage),
        memory_limit: Some(limit),
        ..Default::default()
    }
}

#[test]
fn cpu_and_system_deltas() {
    let t = stats_totals(&sample(200, 100, 2000, 1000, 4, 0, 0));
    assert_eq!((t.cpu_delta, t.system_delta, t.cpus), (100, 1000, 4));
}

#[test]
fn counters_that_went_back_give_zero() {
    let t = stats_totals(&sample(100, 200, 1000, 1000, 1, 0, 0));
    assert_eq!((t.cpu_delta, t.system_delta), (0, 0));
}

#[test]
fn memory_excludes_the_first_cache_counter() {
    let mut s = sample(0, 0, 0, 0, 1, 1000, 4096);
    s.inactive_file = Some(300);
    s.cache = Some(900);
    let t = stats_totals(&s);
    assert_eq!(t.memory_bytes, 700);
    assert_eq!(t.memory_limit, 4096);
    s.total_inactive_file = Some(100);
    assert_eq!(stats_totals(&s).memory_bytes, 900);
    s.total_inactive_file = Some(5000);
    assert_eq!(stats_totals(&s).memory_bytes, 0);
}

#[test]
fn missing_counters_take_defaults() {
    let t = stats_totals(&StatsCounters::default());
    assert_eq!(t.cpus, 1);
    assert_eq!(t.memory_limit, 1);
    assert_eq!((t.net_rx, t.net_tx), (0, 0));
    let s = StatsCounters { online_cpus: None, num_procs: Some(3), ..Default::default() };
    assert_eq!(stats_totals(&s).cpus, 3);
}

#[test]
fn network_totals_add_up_without_overflow() {
    let s = StatsCounters {
        networks: Some(vec![
            NetCounters { rx_bytes: Some(10), tx_bytes: Some(20) },
            NetCounters { rx_bytes: None, tx_bytes: Some(5) },
            NetCounters { rx_bytes: Some(u64::MAX), tx_bytes: None },
        ]),
        ..Default::default()
    };
    let t = stats_totals(&s);
    assert_eq!(t.net_rx, u64::MAX);
    assert_eq!(t.net_tx, 25);
}
