use new_iris_terminal::plugins::api::{pack, unpack};

#[test]
fn pack_and_unpack_round_trip() {
    assert_eq!(unpack(pack(0x1234, 56)), Some((0x1234, 56)));
    assert_eq!(unpack(pack(u32::MAX, u32::MAX)), Some((u32::MAX, u32::MAX)));
}

/// Zero must mean "pass through unchanged", never a real buffer, or a
/// plugin that declines to transform would blank the terminal.
#[test]
fn zero_means_no_replacement() {
    assert_eq!(unpack(0), None);
}

#[test]
fn a_zero_length_buffer_is_still_a_replacement() {
    // Deliberately distinct from "no replacement": a plugin may want to
    // swallow output entirely.
    assert_eq!(unpack(pack(8, 0)), Some((8, 0)));
}


#[test]
fn a_pointer_in_the_high_half_of_memory_survives() {
    assert_eq!(pack(0x8000_0000, 1), i64::MIN + 1);
    assert_eq!(unpack(i64::MIN + 1), Some((0x8000_0000, 1)));
    assert_eq!(pack(1, 2), 0x1_0000_0002);
}
