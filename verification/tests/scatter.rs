use embed_core::{
    forward_plan, gather_rows, Entry, Pool, PooledPlan, Queue, RawPlan, ValidEncoding,
};

fn entry(id: u64, len: usize, pooled: bool, raw: bool) -> Entry {
    let input_ids: Vec<u32> = (0..len as u32).collect();
    let token_type_ids: Vec<u32> = vec![0; len];
    let position_ids: Vec<u32> = (0..len as u32).collect();
    Entry::new(id, ValidEncoding { input_ids, token_type_ids, position_ids }, pooled, raw)
}

fn batch_of(specs: &[(u64, usize, bool, bool)]) -> embed_core::Batch {
    let mut q = Queue::new(false, 1_000_000, None, 512);
    for &(id, len, pooled, raw) in specs {
        q.append(entry(id, len, pooled, raw));
    }
    let (rejected, nb) = q.next_batch();
    assert!(rejected.is_empty());
    nb.unwrap().batch
}

fn mean_rows(outputs: &[Vec<f32>], start: u32, len: u32) -> Vec<f32> {
    let d = outputs[0].len();
    let mut acc = vec![0f32; d];
    for r in start..start + len {
        for j in 0..d {
            acc[j] += outputs[r as usize][j];
        }
    }
    for v in acc.iter_mut() {
        *v /= len as f32;
    }
    acc
}

#[test]
fn cls_pooling_with_raw_request_coexistence() {
    // two pooled members and one raw member: cu = [0, 3, 7, 10]
    let b = batch_of(&[(1, 3, true, false), (2, 4, true, false), (3, 3, false, true)]);
    assert_eq!(b.cumulative_seq_lengths, vec![0, 3, 7, 10]);

    let cls = b.cls_pool_indices();
    assert_eq!(cls, vec![0, 3]);

    let raw = b.raw_output_plan().expect("a raw member exists");
    match raw {
        RawPlan::Gather(v) => assert_eq!(v, vec![7, 8, 9]),
        RawPlan::FullOutput => panic!("pooled members exist, a gather is needed"),
    }

    // pooled output rows are outputs[0] and outputs[3]
    let outputs: Vec<u64> = (0..10).map(|r| 100 + r).collect();
    let pooled_rows = gather_rows(&outputs, &cls);
    assert_eq!(pooled_rows, vec![100, 103]);
}

#[test]
fn raw_round_trip_when_every_member_is_raw() {
    // no pooled member: the plan is the identity and hands outputs back whole
    let b = batch_of(&[(1, 2, false, true), (2, 3, false, true)]);
    let raw = b.raw_output_plan().unwrap();
    assert!(matches!(raw, RawPlan::FullOutput));

    // with a pooled member alongside, the gather is computed — and when
    // every member is also raw it is exactly the identity
    let b2 = batch_of(&[(1, 2, true, true), (2, 3, false, true)]);
    let raw2 = b2.raw_output_plan().unwrap();
    match raw2 {
        RawPlan::Gather(v) => {
            let identity: Vec<u32> = (0..5).collect();
            assert_eq!(v, identity);
            let outputs: Vec<u64> = (0..5).map(|r| 10 * r).collect();
            assert_eq!(gather_rows(&outputs, &v), outputs);
        }
        RawPlan::FullOutput => panic!("a pooled member exists in a multi-member batch"),
    }
}

#[test]
fn single_member_batch_skips_the_raw_gather() {
    let b = batch_of(&[(1, 4, true, true)]);
    let raw = b.raw_output_plan().unwrap();
    assert!(matches!(raw, RawPlan::FullOutput));
}

#[test]
fn no_raw_member_no_raw_output() {
    let b = batch_of(&[(1, 4, true, false)]);
    assert!(b.raw_output_plan().is_none());
}

#[test]
fn pool_idempotence_on_length_one_sequence() {
    let b = batch_of(&[(1, 1, true, false)]);
    let cls = b.cls_pool_indices();
    assert_eq!(cls, vec![0]);
    let ranges = b.mean_pool_ranges();
    assert_eq!(ranges, vec![(0, 1)]);

    // mean over one row with divisor 1 is the row itself
    let outputs = vec![vec![0.5f32, -2.0, 3.25]];
    let (start, len) = ranges[0];
    assert_eq!(mean_rows(&outputs, start, len), outputs[0]);
}

#[test]
fn mean_pooling_divides_by_true_length() {
    let b = batch_of(&[(1, 5, true, false)]);
    let ranges = b.mean_pool_ranges();
    // divisor is the member's true token count
    assert_eq!(ranges, vec![(0, 5)]);
    let outputs: Vec<Vec<f32>> = (0..5).map(|r| vec![r as f32]).collect();
    let (start, len) = ranges[0];
    // (0 + 1 + 2 + 3 + 4) / 5.0
    assert_eq!(mean_rows(&outputs, start, len), vec![2.0f32]);
}

#[test]
fn mean_divisor_is_member_length_not_batch_maximum() {
    // members of lengths 2 and 6: the shorter one divides by 2, never by 6
    let b = batch_of(&[(1, 2, true, false), (2, 6, true, false)]);
    assert_eq!(b.max_length, 6);
    let ranges = b.mean_pool_ranges();
    assert_eq!(ranges, vec![(0, 2), (2, 6)]);
    let outputs: Vec<Vec<f32>> = (0..8).map(|r| vec![r as f32]).collect();
    let (s0, l0) = ranges[0];
    assert_eq!(mean_rows(&outputs, s0, l0), vec![0.5f32]);
}

#[test]
fn single_item_equivalence_on_values() {
    // the middle member of a batch selects the same rows as it would alone
    let b = batch_of(&[(1, 2, true, true), (2, 3, true, true), (3, 2, true, true)]);
    let outputs: Vec<u64> = (0..7).map(|r| 1000 + r).collect();
    let cu = &b.cumulative_seq_lengths;
    let member = 1usize;
    let member_rows: Vec<u64> =
        outputs[cu[member] as usize..cu[member + 1] as usize].to_vec();

    let alone = batch_of(&[(2, 3, true, true)]);
    let cls_batched = b.cls_pool_indices();
    let cls_alone = alone.cls_pool_indices();
    // same first-token row
    assert_eq!(outputs[cls_batched[member] as usize], member_rows[cls_alone[0] as usize]);
    // same mean row run and divisor
    let ranges_batched = b.mean_pool_ranges();
    let ranges_alone = alone.mean_pool_ranges();
    assert_eq!(ranges_batched[member].1, ranges_alone[0].1);
    let (bs, bl) = ranges_batched[member];
    let rows: Vec<u64> = outputs[bs as usize..(bs + bl) as usize].to_vec();
    assert_eq!(rows, member_rows);
}

#[test]
fn forward_plan_selects_the_configured_pool() {
    let b = batch_of(&[(1, 3, true, false), (2, 2, false, true)]);
    let plan_cls = forward_plan(&b, Pool::Cls);
    match plan_cls.pooled {
        Some(PooledPlan::Cls(v)) => assert_eq!(v, vec![0]),
        _ => panic!("CLS pooling must yield a CLS plan"),
    }
    let plan_mean = forward_plan(&b, Pool::Mean);
    match plan_mean.pooled {
        Some(PooledPlan::Mean(v)) => assert_eq!(v, vec![(0, 3)]),
        _ => panic!("mean pooling must yield a mean plan"),
    }
    assert!(plan_cls.raw.is_some());
}

#[test]
fn forward_plan_without_pooled_members() {
    let b = batch_of(&[(1, 3, false, true)]);
    let plan = forward_plan(&b, Pool::Cls);
    assert!(plan.pooled.is_none());
    assert!(matches!(plan.raw, Some(RawPlan::FullOutput)));
}
