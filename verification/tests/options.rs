use mozim::options::find_option;
use mozim::options::find_option_bytes4;
use mozim::options::find_option_u8;
use mozim::options::plain_options_of;
use mozim::options::release_options;
use mozim::options::request_options;
use mozim::options::u32_from_be;

#[test]
fn plain_options_hold_the_message_type() {
    assert_eq!(plain_options_of(1), vec![99, 130, 83, 99, 53, 1, 1, 255]);
    assert_eq!(find_option_u8(&plain_options_of(3), 53), Some(3));
}

#[test]
fn request_options_hold_address_and_server() {
    let o = request_options(&[10, 0, 0, 5], &[10, 0, 0, 1]);
    assert_eq!(
        o,
        vec![99, 130, 83, 99, 53, 1, 3, 50, 4, 10, 0, 0, 5, 54, 4, 10, 0, 0, 1, 255]
    );
    assert_eq!(find_option_u8(&o, 53), Some(3));
    assert_eq!(find_option_bytes4(&o, 50), Some([10, 0, 0, 5]));
    assert_eq!(find_option_bytes4(&o, 54), Some([10, 0, 0, 1]));
}

#[test]
fn release_options_hold_the_server() {
    let o = release_options(&[10, 0, 0, 1]);
    assert_eq!(o, vec![99, 130, 83, 99, 53, 1, 7, 54, 4, 10, 0, 0, 1, 255]);
}

#[test]
fn search_needs_the_magic_cookie() {
    assert_eq!(find_option(&[53, 1, 2, 255], 53), None);
    assert_eq!(find_option(&[99, 130, 83, 98, 53, 1, 2, 255], 53), None);
    assert_eq!(find_option(&[99, 130, 83], 53), None);
    assert_eq!(find_option(&[], 53), None);
}

#[test]
fn search_skips_padding_and_other_options() {
    let region = [99, 130, 83, 99, 0, 0, 1, 4, 255, 255, 255, 0, 0, 53, 1, 5, 255];
    assert_eq!(find_option(&region, 53), Some(vec![5]));
    assert_eq!(find_option(&region, 1), Some(vec![255, 255, 255, 0]));
}

#[test]
fn search_stops_at_the_end_option() {
    let region = [99, 130, 83, 99, 255, 53, 1, 5];
    assert_eq!(find_option(&region, 53), None);
}

#[test]
fn search_takes_the_first_of_two() {
    let region = [99, 130, 83, 99, 53, 1, 2, 53, 1, 5, 255];
    assert_eq!(find_option_u8(&region, 53), Some(2));
}

#[test]
fn search_rejects_a_cut_off_option() {
    assert_eq!(find_option(&[99, 130, 83, 99, 53], 53), None);
    assert_eq!(find_option(&[99, 130, 83, 99, 53, 2, 1], 53), None);
    assert_eq!(find_option(&[99, 130, 83, 99, 1, 9, 1, 53, 1, 5], 53), None);
}

#[test]
fn search_finds_an_empty_option() {
    assert_eq!(find_option(&[99, 130, 83, 99, 80, 0, 255], 80), Some(vec![]));
}

#[test]
fn typed_reads_check_the_length() {
    let region = [99, 130, 83, 99, 53, 2, 5, 5, 51, 3, 0, 0, 1, 255];
    assert_eq!(find_option_u8(&region, 53), None);
    assert_eq!(find_option_bytes4(&region, 51), None);
}

#[test]
fn big_endian_number() {
    assert_eq!(u32_from_be(&[0, 0, 0x0e, 0x10]), 3600);
    assert_eq!(u32_from_be(&[0xff, 0xff, 0xff, 0xff]), u32::MAX);
    assert_eq!(u32_from_be(&[1, 2, 3, 4]), 0x0102_0304);
}
