use std::time::{Duration, Instant};
use blitz_integration::performance::{
    sort_nanos, MemorySnapshot, OptimizationHints, PerformanceAnalyzer, PerformanceMetrics,
};

#[test]
fn test_performance_analyzer() {
    let mut metrics = PerformanceMetrics::default();
    metrics.ecs_query_times = vec![
        Duration::from_millis(1),
        Duration::from_millis(2),
        Duration::from_millis(3),
        Duration::from_millis(4),
        Duration::from_millis(5),
    ];

    let report = PerformanceAnalyzer::analyze_metrics(&metrics);

    assert!(report.ecs_stats.is_some());
    let ecs_stats = report.ecs_stats.unwrap();
    assert_eq!(ecs_stats.count, 5);
    assert_eq!(ecs_stats.median, Duration::from_millis(3));
    assert_eq!(ecs_stats.min, Duration::from_millis(1));
    assert_eq!(ecs_stats.max, Duration::from_millis(5));
}

#[test]
fn test_optimization_hints() {
    let query_hints = OptimizationHints::suggest_query_optimizations(2000, Duration::from_millis(10));
    assert!(!query_hints.is_empty());

    let memory_hints = OptimizationHints::suggest_memory_optimizations(100 * 1024 * 1024);
    assert!(!memory_hints.is_empty());

    let render_hints = OptimizationHints::suggest_render_optimizations(Duration::from_millis(20));
    assert!(!render_hints.is_empty());
}

#[test]
fn duration_stats_exact_values() {
    let times = [
        Duration::from_millis(40),
        Duration::from_millis(10),
        Duration::from_millis(30),
        Duration::from_millis(20),
    ];
    let st = PerformanceAnalyzer::analyze_durations(&times);
    assert_eq!(st.count, 4);
    assert_eq!(st.total, Duration::from_millis(100));
    assert_eq!(st.mean, Duration::from_millis(25));
    assert_eq!(st.median, Duration::from_millis(25));
    assert_eq!(st.min, Duration::from_millis(10));
    assert_eq!(st.max, Duration::from_millis(40));
    assert_eq!(st.p95, Duration::from_millis(40));
    assert_eq!(st.p99, Duration::from_millis(40));
}

#[test]
fn percentiles_on_a_hundred_samples() {
    let times: Vec<Duration> = (1..=100u64).rev().map(Duration::from_micros).collect();
    let st = PerformanceAnalyzer::analyze_durations(&times);
    assert_eq!(st.p95, Duration::from_micros(96));
    assert_eq!(st.p99, Duration::from_micros(100));
    assert_eq!(st.median, Duration::from_nanos(50_500));
    assert_eq!(st.mean, Duration::from_nanos(50_500));
}

#[test]
fn sorting_nanoseconds() {
    assert_eq!(sort_nanos(&vec![5, 1, 4, 1, 3]), vec![1, 1, 3, 4, 5]);
    assert_eq!(sort_nanos(&vec![]), Vec::<u128>::new());
}

#[test]
fn memory_statistics() {
    let now = Instant::now();
    let snaps = [
        MemorySnapshot { timestamp: now, heap_size: 10, stack_size: 1, ecs_world_size: 100 },
        MemorySnapshot { timestamp: now, heap_size: 30, stack_size: 2, ecs_world_size: 50 },
        MemorySnapshot { timestamp: now, heap_size: 21, stack_size: 4, ecs_world_size: 75 },
    ];
    let st = PerformanceAnalyzer::analyze_memory(&snaps);
    assert_eq!(st.peak_heap, 30);
    assert_eq!(st.avg_heap, 20);
    assert_eq!(st.peak_stack, 4);
    assert_eq!(st.avg_stack, 2);
    assert_eq!(st.peak_ecs_world, 100);
    assert_eq!(st.avg_ecs_world, 75);
    assert_eq!(st.snapshot_count, 3);
}

#[test]
fn recommendations_follow_thresholds() {
    let mut metrics = PerformanceMetrics::default();
    metrics.record_ecs_query_time(Duration::from_millis(12));
    metrics.record_render_time(Duration::from_millis(17));
    metrics.record_hook_execution_time(Duration::from_millis(1));
    metrics.record_memory_snapshot(MemorySnapshot {
        timestamp: Instant::now(),
        heap_size: 200 * 1024 * 1024,
        stack_size: 0,
        ecs_world_size: 0,
    });
    assert_eq!(metrics.total_operations, 3);
    let report = PerformanceAnalyzer::analyze_metrics(&metrics);
    assert_eq!(report.total_operations, 3);
    assert_eq!(
        report.recommendations,
        vec![
            "Consider optimizing ECS queries - P95 latency is high".to_string(),
            "ECS query mean time is elevated - review query complexity".to_string(),
            "Render time exceeds 60fps budget - optimize rendering".to_string(),
            "High memory usage detected - consider memory optimization".to_string(),
        ]
    );
}

#[test]
fn empty_metrics_look_good() {
    let report = PerformanceAnalyzer::analyze_metrics(&PerformanceMetrics::default());
    assert!(report.ecs_stats.is_none());
    assert!(report.memory_stats.is_none());
    assert_eq!(report.recommendations, vec!["Performance looks good!".to_string()]);
}

#[test]
fn hints_below_thresholds_are_empty() {
    assert!(OptimizationHints::suggest_query_optimizations(2000, Duration::from_millis(1)).is_empty());
    assert_eq!(
        OptimizationHints::suggest_query_optimizations(10, Duration::from_millis(6)),
        vec!["Review query filters and component access patterns".to_string()]
    );
    assert!(OptimizationHints::suggest_memory_optimizations(50 * 1024 * 1024).is_empty());
    assert!(OptimizationHints::suggest_render_optimizations(Duration::from_millis(16)).is_empty());
}
