use zkwasm_witness::state::InitializationState;

fn sample() -> InitializationState<u32, u32> {
    InitializationState {
        eid: 1,
        fid: 2,
        iid: 3,
        frame_id: 4,
        sp: 5,
        host_public_inputs: 6,
        context_in_index: 7,
        context_out_index: 8,
        external_host_call_call_index: 9,
        initial_memory_pages: 10,
        maximal_memory_pages: 11,
        jops: 12,
    }
}

#[test]
fn field_count_covers_every_scalar() {
    assert_eq!(InitializationState::<u32, u64>::field_count(), 12);
}

#[test]
fn plain_lists_fields_in_order() {
    let v = sample().plain();
    assert_eq!(v, vec![1, 2, 3, 4, 5, 6, 7, 8, 9, 10, 11, 12]);
    assert_eq!(v.len(), InitializationState::<u32, u32>::field_count());
}

#[test]
fn default_is_all_zero() {
    let d = <InitializationState<u32, u64> as Default>::default();
    assert_eq!(d.eid, 0);
    assert_eq!(d.fid, 0);
    assert_eq!(d.iid, 0);
    assert_eq!(d.frame_id, 0);
    assert_eq!(d.sp, 0);
    assert_eq!(d.host_public_inputs, 0);
    assert_eq!(d.context_in_index, 0);
    assert_eq!(d.context_out_index, 0);
    assert_eq!(d.external_host_call_call_index, 0);
    assert_eq!(d.initial_memory_pages, 0);
    assert_eq!(d.maximal_memory_pages, 0);
    assert_eq!(d.jops, 0);
}

#[test]
fn map_applies_to_every_field() {
    let m = sample().map(|x: &u32| x + 1, |x: &u32| x + 1);
    assert_eq!(
        m.plain(),
        vec![2, 3, 4, 5, 6, 7, 8, 9, 10, 11, 12, 13]
    );
}

#[test]
fn zip_for_each_visits_matching_fields() {
    let a = sample();
    let b = sample();
    let ok: Result<(), ()> = a.zip_for_each(&b, |x: &u32, y: &u32| if x == y { Ok(()) } else { Err(()) });
    assert!(ok.is_ok());

    let mut c = sample();
    c.jops = 99;
    let bad: Result<(), u32> = a.zip_for_each(&c, |x: &u32, y: &u32| {
        if x == y {
            Ok(())
        } else {
            Err(*y)
        }
    });
    assert_eq!(bad, Err(99));
}

#[test]
fn for_each_accepts_both_closures() {
    let s = InitializationState::<u32, u64> {
        eid: 1,
        fid: 1,
        iid: 1,
        frame_id: 1,
        sp: 1,
        host_public_inputs: 1,
        context_in_index: 1,
        context_out_index: 1,
        external_host_call_call_index: 1,
        initial_memory_pages: 1,
        maximal_memory_pages: 1,
        jops: 7,
    };
    s.for_each(|x: &u32| *x as u64, |x: &u64| *x);
}

#[test]
fn transpose_is_ok_exactly_when_every_field_is() {
    let all_ok: InitializationState<Result<u32, String>, Result<u64, String>> =
        InitializationState {
            eid: Ok(1),
            fid: Ok(2),
            iid: Ok(3),
            frame_id: Ok(4),
            sp: Ok(5),
            host_public_inputs: Ok(6),
            context_in_index: Ok(7),
            context_out_index: Ok(8),
            external_host_call_call_index: Ok(9),
            initial_memory_pages: Ok(10),
            maximal_memory_pages: Ok(11),
            jops: Ok(12),
        };
    let t = all_ok.transpose().unwrap();
    assert_eq!(t.eid, 1);
    assert_eq!(t.jops, 12);

    let one_err: InitializationState<Result<u32, String>, Result<u64, String>> =
        InitializationState {
            eid: Ok(1),
            fid: Err("bad fid".to_string()),
            iid: Ok(3),
            frame_id: Ok(4),
            sp: Err("bad sp".to_string()),
            host_public_inputs: Ok(6),
            context_in_index: Ok(7),
            context_out_index: Ok(8),
            external_host_call_call_index: Ok(9),
            initial_memory_pages: Ok(10),
            maximal_memory_pages: Ok(11),
            jops: Ok(12),
        };
    // the first error in field order wins
    assert_eq!(one_err.transpose(), Err("bad fid".to_string()));
}
