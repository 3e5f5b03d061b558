use siras::history::History;

#[test]
fn new_history_is_filled() {
    let h = History::new(3, 0.0f64);
    assert_eq!(h.capacity(), 3);
    assert_eq!(h.to_vec(), vec![0.0, 0.0, 0.0]);
}

#[test]
fn push_keeps_newest_first() {
    let mut h = History::new(3, 0i64);
    h.push(1);
    assert_eq!(h.to_vec(), vec![1, 0, 0]);
    h.push(2);
    h.push(3);
    assert_eq!(h.to_vec(), vec![3, 2, 1]);
    h.push(4);
    assert_eq!(h.to_vec(), vec![4, 3, 2]);
    assert_eq!(h.get(0), 4);
    assert_eq!(h.get(2), 2);
    for x in 5..20 {
        h.push(x);
    }
    assert_eq!(h.to_vec(), vec![19, 18, 17]);
}

#[test]
fn single_slot_history_holds_last_sample() {
    let mut h = History::new(1, 0.5f64);
    assert_eq!(h.get(0), 0.5);
    h.push(0.2);
    h.push(0.4);
    assert_eq!(h.to_vec(), vec![0.4]);
}

#[test]
fn reset_returns_to_rest() {
    let mut h = History::new(4, 0u8);
    h.push(7);
    h.push(9);
    h.reset(0);
    assert_eq!(h.to_vec(), vec![0, 0, 0, 0]);
    h.push(3);
    assert_eq!(h.to_vec(), vec![3, 0, 0, 0]);
}

#[test]
fn history_drives_direct_form_recurrence() {
    // num = [1.3], den = [2.0, 1.5], run through the registers as a
    // direct-form-I filter would.
    let num = [1.3f64];
    let den = [2.0f64, 1.5];
    let mut inputs = History::new(num.len(), 0.0f64);
    let mut outputs = History::new(den.len(), 0.0f64);
    let mut got = Vec::new();
    for u in [0.2, 0.4, 0.6, 0.8, 1.0] {
        inputs.push(u);
        let mut y = num[0] * inputs.get(0);
        y -= den[1] * outputs.get(0);
        y /= den[0];
        outputs.push(y);
        got.push(y);
    }
    let expected = [0.13, 0.1625, 0.268125, 0.31890625, 0.4108203125];
    for (g, e) in got.iter().zip(expected.iter()) {
        assert!((g - e).abs() <= 1e-12 * e.abs());
    }
}
