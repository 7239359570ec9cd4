use indicators_core::calculator::VolumeStatistics;

/// The anomaly flag is 1 iff the z-score strictly exceeds 2; a z-score
/// of exactly 2 yields 0.
#[test]
fn anomaly_strictly_above_two() {
    // volumes [0,0,0,0,1,5]: mean 1, sample variance 23/6... computed
    // exactly: n=6, d = 6*5-6 = 24, V = 6*26-36 = 120,
    // (n-1)*d^2 = 2880 == 4*n*V = 2880: z is exactly 2 -> no anomaly
    let mut stats = VolumeStatistics::new(50);
    for v in [0, 0, 0, 0, 1, 5] {
        stats.add(v);
    }
    assert!(!stats.is_anomalous(5));

    // volumes [0,0,0,0,1,6]: 5*29^2 = 4205 > 4*6*173 = 4152: z > 2
    let mut stats = VolumeStatistics::new(50);
    for v in [0, 0, 0, 0, 1, 6] {
        stats.add(v);
    }
    assert!(stats.is_anomalous(6));
}

/// Against the floating-point formula: flag == (z > 2.0) on a
/// deterministic synthetic series.
#[test]
fn anomaly_matches_float_zscore() {
    let series: Vec<i64> =
        (0..60).map(|i| 100 + (i * 37) % 11 + if i == 59 { 40 } else { 0 }).collect();
    let mut stats = VolumeStatistics::new(50);
    let mut flags = Vec::new();
    let mut window: Vec<i64> = Vec::new();
    for &v in &series {
        stats.add(v);
        window.push(v);
        if window.len() > 50 {
            window.remove(0);
        }
        flags.push(stats.is_anomalous(v));
        let n = window.len() as f64;
        let sum: f64 = window.iter().map(|&x| x as f64).sum();
        let sum_sq: f64 = window.iter().map(|&x| (x * x) as f64).sum();
        let z = if window.len() <= 1 {
            0.0
        } else {
            let variance = (sum_sq - sum * sum / n) / (n - 1.0);
            if variance <= 0.0 {
                0.0
            } else {
                (v as f64 - sum / n) / variance.sqrt()
            }
        };
        assert_eq!(*flags.last().unwrap(), z > 2.0);
    }
    assert!(flags[59]);
    assert!(!flags[58]);
}

/// Mean and variance come out as exact rationals of the window terms.
#[test]
fn mean_and_variance_exact() {
    let mut stats = VolumeStatistics::new(50);
    assert_eq!((stats.mean().num, stats.mean().den), (0, 1));
    for v in [2, 4, 9] {
        stats.add(v);
    }
    let mean = stats.mean();
    assert_eq!((mean.num, mean.den), (15, 3));
    let var = stats.variance();
    // 3*(4+16+81) - 225 = 78 over 3*2
    assert_eq!((var.num, var.den), (78, 6));
    let z = stats.normalize(9);
    assert_eq!((z.dev.num, z.dev.den), (3 * 9 - 15, 3));
    assert_eq!((z.var.num, z.var.den), (78, 6));
}

/// The window evicts its oldest element once at capacity.
#[test]
fn window_evicts_oldest() {
    let mut stats = VolumeStatistics::new(3);
    for v in [10, 20, 30, 40] {
        stats.add(v);
    }
    // window is now [20, 30, 40]
    assert_eq!((stats.mean().num, stats.mean().den), (90, 3));
    let mut single = VolumeStatistics::new(3);
    single.add(5);
    assert_eq!((single.variance().num, single.variance().den), (0, 1));
}
