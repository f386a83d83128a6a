use mandelbrot::fixed::ONE;
use mandelbrot::uniform::split;
use mandelbrot::uniform::Split;

fn parts(big: i128, small: i128) -> Split {
    Split { big, small }
}

#[test]
fn short_numbers_are_their_own_big_part() {
    assert_eq!(split(0), parts(0, 0));
    assert_eq!(split(1), parts(1, 0));
    assert_eq!(split(-1), parts(-1, 0));
    assert_eq!(split(3), parts(3, 0));
    assert_eq!(split(ONE), parts(ONE as i128, 0));
    assert_eq!(split(5 * ONE / 2), parts((5 * ONE / 2) as i128, 0));
    assert_eq!(split(-ONE / 2), parts((-ONE / 2) as i128, 0));
    assert_eq!(split((1 << 24) - 1), parts((1 << 24) - 1, 0));
    assert_eq!(split(1 << 24), parts(1 << 24, 0));
    assert_eq!(split(i64::MIN), parts(i64::MIN as i128, 0));
}

#[test]
fn big_part_is_rounded_to_nearest() {
    assert_eq!(split((1 << 24) + 1), parts(1 << 24, 1));
    assert_eq!(split((1 << 24) + 3), parts((1 << 24) + 4, -1));
    assert_eq!(split((1 << 25) + 1), parts(1 << 25, 1));
    assert_eq!(split((1 << 25) + 3), parts((1 << 25) + 4, -1));
    assert_eq!(split((1 << 25) - 1), parts(1 << 25, -1));
    assert_eq!(split(ONE + 1), parts(ONE as i128, 1));
    assert_eq!(split(ONE - 1), parts(ONE as i128, -1));
    assert_eq!(split(-(ONE - 1)), parts(-(ONE as i128), 1));
    assert_eq!(split(0x1234_5678_9ABC), parts(20015998828544, -484676));
    assert_eq!(split(-0x1234_5678_9ABC), parts(-20015998828544, 484676));
    assert_eq!(split(ONE / 3), parts(93824995033088, -2796203));
    assert_eq!(split(ONE / 7), parts(40210712756224, -1797559));
}

#[test]
fn ties_go_to_the_even_neighbour() {
    // Halfway between 2^25 and 2^25 + 4: the lower one ends in a zero bit.
    assert_eq!(split((1 << 25) + 2), parts(1 << 25, 2));
    // Halfway between 2^25 + 4 and 2^25 + 8: the upper one does.
    assert_eq!(split((1 << 25) + 6), parts((1 << 25) + 8, -2));
    assert_eq!(split(-((1 << 25) + 6)), parts(-((1 << 25) + 8), 2));
}

#[test]
fn numbers_under_one_are_split_without_loss() {
    for v in [1i64, 3, ONE / 3, ONE / 7, ONE - 1, -(ONE - 1), -ONE / 3, 0x1234_5678_9ABC] {
        let s = split(v);
        assert_eq!(s.big + s.small, v as i128);
    }
}

#[test]
fn large_numbers_lose_their_lowest_bits() {
    assert_eq!(split(0x7123_4567_89AB_CDEF), parts(8152436166528860160, -105064448000));
    assert_eq!(0x7123_4567_89AB_CDEFi128 - 8152436166528860160 + 105064448000, 3567);
    assert_eq!(split(-0x7123_4567_89AB_CDEF), parts(-8152436166528860160, 105064448000));
}

#[test]
fn largest_number_rounds_past_the_stored_range() {
    assert_eq!(split(i64::MAX), parts(1 << 63, -1));
    assert_eq!(split(i64::MIN + 1), parts(-(1 << 63), 1));
}

#[test]
fn parts_have_twenty_four_significant_bits() {
    let values =
        [i64::MAX, i64::MIN, 0x7123_4567_89AB_CDEF, -0x7123_4567_89AB_CDEF, ONE / 3, 12345];
    for v in values {
        let s = split(v);
        for part in [s.big, s.small] {
            let mut m = part.unsigned_abs();
            while m != 0 && m % 2 == 0 {
                m /= 2;
            }
            assert!(m < (1 << 24));
        }
        let size = (v as i128).unsigned_abs();
        assert!((v as i128 - s.big).unsigned_abs() << 24 <= size);
        assert!(s.small.unsigned_abs() << 24 <= size);
        assert!((v as i128 - s.big - s.small).unsigned_abs() << 48 <= size);
    }
}
