use corex::harness::KernelKind;
use corex::perf::{default_inputs, head_to_head, measure_kernel, summarize, sweep_group};

#[test]
fn measure_returns_requested_sample_count() {
    let samples = measure_kernel(KernelKind::Iterative, 30, 7);
    assert_eq!(samples.len(), 7);
}

#[test]
fn summarize_exact_statistics() {
    let samples: Vec<u64> = vec![10, 20, 30];
    let report = summarize(KernelKind::Matrix, 30, &samples);
    assert_eq!(report.samples, 3);
    assert_eq!(report.mean_nanos, 20);
    assert_eq!(report.min_nanos, 10);
    assert_eq!(report.max_nanos, 30);
    assert_eq!(report.n, 30);
    assert_eq!(report.kernel, KernelKind::Matrix);
}

#[test]
fn summarize_single_sample() {
    let samples: Vec<u64> = vec![5];
    let report = summarize(KernelKind::Memoized, 1, &samples);
    assert_eq!(report.mean_nanos, 5);
    assert_eq!(report.min_nanos, 5);
    assert_eq!(report.max_nanos, 5);
}

#[test]
fn summarize_truncating_mean() {
    let samples: Vec<u64> = vec![1, 2];
    let report = summarize(KernelKind::Recursive, 2, &samples);
    assert_eq!(report.mean_nanos, 1);
}

#[test]
fn sweep_group_labels_each_pair() {
    let inputs: Vec<u32> = vec![0, 1, 10];
    let reports = sweep_group(KernelKind::Iterative, &inputs, 2);
    assert_eq!(reports.len(), 3);
    for (report, n) in reports.iter().zip(inputs.iter()) {
        assert_eq!(report.kernel, KernelKind::Iterative);
        assert_eq!(report.n, *n);
        assert_eq!(report.samples, 2);
    }
}

#[test]
fn default_inputs_bound_the_recursive_sweep() {
    let recursive = default_inputs(KernelKind::Recursive);
    assert_eq!(recursive, vec![10, 15, 20, 25, 30]);
    let shared = default_inputs(KernelKind::Iterative);
    assert_eq!(shared, vec![10, 20, 30, 40, 50, 60, 70, 80, 90, 100]);
}

#[test]
fn head_to_head_covers_all_kernels_at_30() {
    let reports = head_to_head(3);
    assert_eq!(reports.len(), 4);
    let kinds = [
        KernelKind::Recursive,
        KernelKind::Iterative,
        KernelKind::Memoized,
        KernelKind::Matrix,
    ];
    for (report, kind) in reports.iter().zip(kinds.iter()) {
        assert_eq!(report.kernel, *kind);
        assert_eq!(report.n, 30);
        assert_eq!(report.samples, 3);
    }
}
