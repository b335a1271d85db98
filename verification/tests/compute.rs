use zero_copy_read::compute::{
    active_flags_of, blob_sum_of, compute, compute_view, total_of, DerivedResults,
};
use zero_copy_read::instruction::InstructionData;
use zero_copy_read::record::{
    UserData, UserDataView, BLOB_LEN, BLOB_OFFSET, FLAGS_OFFSET, RECORD_SIZE, VALUES_COUNT,
    VALUES_OFFSET,
};

fn empty_record() -> UserData {
    UserData {
        counter: 0,
        timestamp: 0,
        values: [0u64; 100],
        flags: [0u8; 200],
        data_blob: [0u8; 1984],
    }
}

#[test]
fn no_flag_set_counts_zero() {
    assert_eq!(active_flags_of(&[0u8; 200]), 0);
    let record = empty_record();
    let fields = InstructionData { amount: 0, multiplier: 0 };
    assert_eq!(compute(&record, &fields).active_flags, 0);
}

#[test]
fn one_flag_set_counts_one() {
    let mut flags = [0u8; 200];
    flags[57] = 1;
    assert_eq!(active_flags_of(&flags), 1);
}

#[test]
fn every_positive_flag_counts_once() {
    let mut flags = [0u8; 200];
    flags[0] = 255;
    flags[1] = 1;
    flags[2] = 128;
    flags[199] = 7;
    assert_eq!(active_flags_of(&flags), 4);
    assert_eq!(active_flags_of(&[9u8; 200]), 200);
    assert_eq!(active_flags_of(&[]), 0);
}

#[test]
fn total_is_sum_times_multiplier_plus_amount() {
    assert_eq!(total_of(&[1u64; 100], 2, 5), 205);
    let mut record = empty_record();
    record.values = [1u64; 100];
    let fields = InstructionData { amount: 5, multiplier: 2 };
    assert_eq!(compute(&record, &fields).total, 205);
}

#[test]
fn total_wraps_in_the_sum() {
    let mut values = [0u64; 100];
    values[0] = u64::MAX;
    values[1] = 3;
    // the sum wraps to 2
    assert_eq!(total_of(&values, 10, 1), 21);
}

#[test]
fn total_wraps_in_the_product_and_in_the_addition() {
    let mut values = [0u64; 100];
    values[99] = 1u64 << 63;
    assert_eq!(total_of(&values, 2, 9), 9);
    assert_eq!(total_of(&values, 3, 9), (1u64 << 63) + 9);
    values[99] = 1;
    assert_eq!(total_of(&values, u64::MAX, 1), 0);
    assert_eq!(total_of(&values, u64::MAX, 5), 4);
}

#[test]
fn total_multiplies_before_it_adds() {
    // (100 + 5) * 2 would be 210
    assert_eq!(total_of(&[1u64; 100], 2, 5), 100 * 2 + 5);
    assert_eq!(total_of(&[], 7, 11), 11);
}

#[test]
fn blob_sum_stops_after_a_thousand_bytes() {
    assert_eq!(blob_sum_of(&[1u8; 1984]), 1000);
    let mut blob = [0u8; 1984];
    blob[999] = 200;
    blob[1000] = 100;
    assert_eq!(blob_sum_of(&blob), 200);
}

#[test]
fn blob_sum_takes_all_of_a_shorter_blob() {
    assert_eq!(blob_sum_of(&[255u8; 10]), 2550);
    assert_eq!(blob_sum_of(&[255u8; 1000]), 255_000);
    assert_eq!(blob_sum_of(&[255u8; 1001]), 255_000);
    assert_eq!(blob_sum_of(&[]), 0);
}

#[test]
fn counter_passes_through() {
    let mut record = empty_record();
    record.counter = 0xdead_beef_0000_0001;
    let fields = InstructionData { amount: 1, multiplier: 1 };
    assert_eq!(
        compute(&record, &fields),
        DerivedResults { total: 1, active_flags: 0, blob_sum: 0, counter: 0xdead_beef_0000_0001 }
    );
}

#[test]
fn pipeline_on_the_view_matches_the_owned_copy() {
    let mut data = vec![0u8; RECORD_SIZE];
    data[0..8].copy_from_slice(&77u64.to_le_bytes());
    for i in 0..VALUES_COUNT {
        let at = VALUES_OFFSET + 8 * i;
        data[at..at + 8].copy_from_slice(&(u64::MAX / 7 + i as u64).to_le_bytes());
    }
    for i in 0..50 {
        data[FLAGS_OFFSET + 4 * i] = 1 + i as u8;
    }
    for i in 0..BLOB_LEN {
        data[BLOB_OFFSET + i] = 2;
    }
    let fields = InstructionData { amount: u64::MAX - 3, multiplier: 0x1_0000_0001 };
    let record = UserData::from_bytes_manual(&data).ok().unwrap();
    let view = UserDataView::at_address(&data, 0).ok().unwrap();
    let from_copy = compute(&record, &fields);
    let from_view = compute_view(&view, &fields);
    assert_eq!(from_copy, from_view);
    let mut sum = 0u64;
    for i in 0..100u64 {
        sum = sum.wrapping_add(u64::MAX / 7 + i);
    }
    let total = sum.wrapping_mul(0x1_0000_0001).wrapping_add(u64::MAX - 3);
    assert_eq!(from_view, DerivedResults { total, active_flags: 50, blob_sum: 2000, counter: 77 });
}
