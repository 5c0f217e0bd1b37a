// Budget-style checks with simulated measurements: real memory accounting
// needs platform APIs, so these report fixed representative values.

struct PerformanceResult {
    test_name: String,
    duration_ms: f64,
    target_ms: f64,
    passed: bool,
    details: String,
}

impl PerformanceResult {
    fn new(test_name: &str, duration_ms: f64, target_ms: f64, details: &str) -> Self {
        Self {
            test_name: test_name.to_string(),
            duration_ms,
            target_ms,
            passed: duration_ms <= target_ms,
            details: details.to_string(),
        }
    }

    fn to_report(&self) -> String {
        let status = if self.passed { "PASS" } else { "FAIL" };
        format!(
            "{} | {}: {:.2}ms (target: {:.2}ms) - {}",
            status, self.test_name, self.duration_ms, self.target_ms, self.details
        )
    }
}

fn get_memory_usage_mb() -> f64 {
    // Simulated measurement; real accounting needs platform APIs.
    45.0
}

fn idle_memory_usage() -> PerformanceResult {
    PerformanceResult::new(
        "Idle Memory Usage",
        get_memory_usage_mb(),
        50.0,
        "Memory usage in MB (simulated measurement)",
    )
}

fn active_memory_usage() -> PerformanceResult {
    let mut data = Vec::new();
    for _ in 0..10000 {
        data.push(vec![0u8; 1024]);
    }
    let memory_mb = get_memory_usage_mb() + (data.len() as f64 * 1.0 / 1024.0);
    drop(data);
    PerformanceResult::new("Active Memory Usage", memory_mb, 100.0, "Memory with 1 day of data loaded")
}

#[test]
fn test_memory_usage_budget() {
    let idle_result = idle_memory_usage();
    let active_result = active_memory_usage();

    println!("\n{}", idle_result.to_report());
    println!("{}", active_result.to_report());

    println!("\nNote: memory tests use simulated values.");
    println!("Real memory measurement requires running the compiled application.");
}
