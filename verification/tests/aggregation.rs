use kuberes::totals::ResourceTotals;
use kuberes::totals::combine;
use kuberes::totals::summarize;

fn sample(m_req: u64, m_lim: u64, c_req: u64, c_lim: u64) -> ResourceTotals {
    ResourceTotals {
        memory_requested: m_req,
        memory_limit: m_lim,
        cpu_requested_milli: c_req,
        cpu_limit_milli: c_lim,
    }
}

#[test]
fn combine_of_nothing_is_the_identity() {
    assert_eq!(combine(&vec![]), ResourceTotals::zero());
    assert_eq!(
        ResourceTotals::zero(),
        sample(0, 0, 0, 0)
    );
}

#[test]
fn combine_adds_field_wise() {
    let a = sample(1, 2, 3, 4);
    let b = sample(10, 20, 30, 40);
    assert_eq!(combine(&vec![a, b]), sample(11, 22, 33, 44));
}

#[test]
fn combine_is_order_invariant() {
    let a = sample(1, 2, 3, 4);
    let b = sample(10, 20, 30, 40);
    let c = sample(100, 200, 300, 400);
    let forward = combine(&vec![a, b, c]);
    let backward = combine(&vec![c, b, a]);
    let rotated = combine(&vec![b, c, a]);
    assert_eq!(forward, backward);
    assert_eq!(forward, rotated);
    assert_eq!(forward, sample(111, 222, 333, 444));
}

#[test]
fn combine_of_summaries_is_order_invariant() {
    let docs = [
        "requests:\n  cpu: \"250m\"\n  memory: 64M\n",
        "limits:\n  memory: \"512M\"\n  cpu: \"500m\"\n",
        "requests:\n  memory: \"32M\"\n  cpu: \"125m\"\n",
    ];
    let mut forward = Vec::new();
    for d in docs.iter() {
        forward.push(summarize(d));
    }
    let mut backward = forward.clone();
    backward.reverse();
    assert_eq!(combine(&forward), combine(&backward));
    assert_eq!(combine(&forward), sample(96, 512, 375, 500));
}

#[test]
fn combine_saturates_instead_of_overflowing() {
    let a = sample(u64::MAX, 0, u64::MAX - 1, 0);
    let b = sample(1, 0, 5, 0);
    assert_eq!(combine(&vec![a, b]), sample(u64::MAX, 0, u64::MAX, 0));
}

#[test]
fn one_with_pairwise_combination() {
    let a = sample(1, 2, 3, 4);
    let b = sample(5, 6, 7, 8);
    assert_eq!(a.combine_with(b), sample(6, 8, 10, 12));
    assert_eq!(a.combine_with(b), b.combine_with(a));
    assert_eq!(a.combine_with(ResourceTotals::zero()), a);
}
