use dtui::stats::{
    calculate_cpu_percentage, calculate_memory_percentage, CpuSample, MemorySample, Smoother,
};

fn create_cpu_stats(total_usage: u64, system_cpu_usage: u64, online_cpus: u32) -> CpuSample {
    CpuSample {
        total_usage: Some(total_usage),
        system_cpu_usage: Some(system_cpu_usage),
        online_cpus: Some(online_cpus),
    }
}

#[test]
fn test_calculate_cpu_percentage_normal_usage() {
    let cpu_stats = Some(create_cpu_stats(1_000_000_000, 2_000_000_000, 4));
    let precpu_stats = Some(create_cpu_stats(500_000_000, 1_000_000_000, 4));

    let cpu = calculate_cpu_percentage(cpu_stats, precpu_stats);

    // CPU delta: 1B - 500M = 500M
    // System delta: 2B - 1B = 1B
    // (500M / 1B) * 4 CPUs * 100 = 200%
    assert_eq!(cpu, 200_000);
    assert_eq!(cpu as f64 / 1000.0, 200.0);
}

#[test]
fn test_calculate_cpu_percentage_single_core() {
    let cpu_stats = Some(create_cpu_stats(800_000_000, 1_000_000_000, 1));
    let precpu_stats = Some(create_cpu_stats(200_000_000, 500_000_000, 1));

    let cpu = calculate_cpu_percentage(cpu_stats, precpu_stats);

    // CPU delta: 800M - 200M = 600M
    // System delta: 1B - 500M = 500M
    // (600M / 500M) * 1 CPU * 100 = 120%
    assert_eq!(cpu, 120_000);
    assert_eq!(cpu as f64 / 1000.0, 120.0);
}

#[test]
fn test_calculate_cpu_percentage_missing_cpu_stats() {
    assert_eq!(calculate_cpu_percentage(None, None), 0);
}

#[test]
fn test_calculate_cpu_percentage_missing_precpu_stats() {
    let cpu_stats = Some(create_cpu_stats(1_000_000_000, 2_000_000_000, 4));

    assert_eq!(calculate_cpu_percentage(cpu_stats, None), 0);
}

#[test]
fn test_calculate_cpu_percentage_zero_system_delta() {
    let cpu_stats = Some(create_cpu_stats(1_000_000_000, 2_000_000_000, 4));
    // Same system CPU
    let precpu_stats = Some(create_cpu_stats(500_000_000, 2_000_000_000, 4));

    // Should return 0 when system delta is 0
    assert_eq!(calculate_cpu_percentage(cpu_stats, precpu_stats), 0);
}

#[test]
fn test_calculate_cpu_percentage_zero_cpu_delta() {
    let cpu_stats = Some(create_cpu_stats(1_000_000_000, 2_000_000_000, 4));
    // Same CPU usage
    let precpu_stats = Some(create_cpu_stats(1_000_000_000, 1_000_000_000, 4));

    // Should return 0 when CPU delta is 0
    assert_eq!(calculate_cpu_percentage(cpu_stats, precpu_stats), 0);
}

#[test]
fn test_calculate_memory_percentage_normal_usage() {
    let memory_stats = Some(MemorySample {
        usage: Some(500_000_000),   // 500 MB
        limit: Some(1_000_000_000), // 1 GB
    });

    let memory = calculate_memory_percentage(memory_stats);
    assert_eq!(memory, 50_000);
    assert_eq!(memory as f64 / 1000.0, 50.0);
}

#[test]
fn test_calculate_memory_percentage_full_usage() {
    let memory_stats = Some(MemorySample {
        usage: Some(1_000_000_000),
        limit: Some(1_000_000_000),
    });

    assert_eq!(calculate_memory_percentage(memory_stats), 100_000);
}

#[test]
fn test_calculate_memory_percentage_low_usage() {
    let memory_stats = Some(MemorySample {
        usage: Some(100_000_000),   // 100 MB
        limit: Some(2_000_000_000), // 2 GB
    });

    assert_eq!(calculate_memory_percentage(memory_stats), 5_000);
}

#[test]
fn test_calculate_memory_percentage_missing_memory_stats() {
    assert_eq!(calculate_memory_percentage(None), 0);
}

#[test]
fn test_calculate_memory_percentage_missing_usage() {
    let memory_stats = Some(MemorySample {
        usage: None,
        limit: Some(1_000_000_000),
    });

    assert_eq!(calculate_memory_percentage(memory_stats), 0);
}

#[test]
fn test_calculate_memory_percentage_missing_limit() {
    let memory_stats = Some(MemorySample {
        usage: Some(500_000_000),
        limit: None,
    });

    // a reading without a limit yields zero, like a zero limit
    assert_eq!(calculate_memory_percentage(memory_stats), 0);
}

#[test]
fn test_calculate_memory_percentage_zero_limit() {
    let memory_stats = Some(MemorySample {
        usage: Some(500_000_000),
        limit: Some(0),
    });

    // Should handle division by zero gracefully
    assert_eq!(calculate_memory_percentage(memory_stats), 0);
}

#[test]
fn test_smoother_first_sample_passes_through() {
    let mut smoother = Smoother::new();
    let (cpu, memory) = smoother.observe(42_000, 17_000);
    assert_eq!(cpu, 42_000);
    assert_eq!(memory, 17_000);
}

#[test]
fn test_smoother_second_sample_is_weighted() {
    let mut smoother = Smoother::new();
    smoother.observe(100_000, 10_000);
    let (cpu, memory) = smoother.observe(200_000, 20_000);
    // (3 * 200_000 + 7 * 100_000) / 10
    assert_eq!(cpu, 130_000);
    // (3 * 20_000 + 7 * 10_000) / 10
    assert_eq!(memory, 13_000);
}

#[test]
fn test_smoother_follows_ema_law_over_series() {
    let inputs: Vec<u32> = vec![50_000, 80_000, 20_000, 90_000];
    let mut smoother = Smoother::new();
    let mut expected: Option<u64> = None;
    for &x in &inputs {
        let (cpu, _) = smoother.observe(x, 0);
        let want = match expected {
            None => x as u64,
            Some(prev) => (3 * x as u64 + 7 * prev) / 10,
        };
        assert_eq!(cpu as u64, want);
        expected = Some(want);
    }
}
