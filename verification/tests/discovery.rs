use llmspec::discovery::Sweep;
use llmspec::providers::RuntimeKind;

fn endpoints() -> Vec<String> {
    RuntimeKind::ALL
        .iter()
        .map(|k| format!("{}{}", k.base_url(None), k.list_path()))
        .collect()
}

/// Run a sweep where the runtimes at the given positions answer.
fn sweep(live: &[usize]) -> (Vec<usize>, Vec<usize>) {
    let mut s = Sweep::new(endpoints());
    let mut probed = Vec::new();
    while let Some(i) = s.next_probe() {
        probed.push(i);
        if live.contains(&i) {
            s.answered_last();
        }
    }
    (probed, s.found().to_vec())
}

#[test]
fn every_runtime_is_probed_in_order_when_none_answers() {
    let (probed, found) = sweep(&[]);
    assert_eq!(probed, vec![0, 1, 2, 3, 4, 5]);
    assert!(found.is_empty());
}

#[test]
fn a_shared_endpoint_is_claimed_by_whichever_runtime_answers_first() {
    let eps = endpoints();
    let llama = RuntimeKind::ALL.iter().position(|k| *k == RuntimeKind::LlamaCpp).unwrap();
    let mlx = RuntimeKind::ALL.iter().position(|k| *k == RuntimeKind::Mlx).unwrap();
    if eps[llama] == eps[mlx] {
        let (probed, found) = sweep(&[llama, mlx]);
        assert_eq!(found, vec![llama]);
        assert!(!probed.contains(&mlx), "a claimed endpoint is not probed again");
    }
    // With only the second of two runtimes sharing an endpoint answering, it
    // is the one reported.
    let shared = vec!["http://h/a".to_string(), "http://h/a".to_string(), "http://h/b".to_string()];
    let mut s = Sweep::new(shared);
    assert_eq!(s.next_probe(), Some(0));
    assert_eq!(s.next_probe(), Some(1));
    s.answered_last();
    assert_eq!(s.next_probe(), Some(2));
    s.answered_last();
    assert_eq!(s.next_probe(), None);
    assert_eq!(s.found(), &[1, 2]);
}

#[test]
fn answering_without_a_pending_probe_records_nothing() {
    let mut s = Sweep::new(endpoints());
    s.answered_last();
    assert!(s.found().is_empty());
    assert_eq!(s.next_probe(), Some(0));
    s.answered_last();
    s.answered_last();
    assert_eq!(s.found(), &[0]);
}
