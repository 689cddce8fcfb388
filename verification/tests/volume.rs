use jiji::pulseaudio::util::{
    max_volume, percentage_to_level, percentage_to_volume, scale, volume_to_percentage,
};

#[test]
fn a_percentage_that_is_set_is_the_one_shown() {
    for percent in 0..=100u32 {
        let channels = percentage_to_volume(percent, &vec![30000, 60000]);
        assert_eq!(volume_to_percentage(max_volume(&channels)), percent);
    }
}

#[test]
fn thirty_seven_percent_comes_back() {
    let channels = percentage_to_volume(37, &vec![65536, 65536]);
    assert_eq!(channels, vec![24248, 24248]);
    assert_eq!(volume_to_percentage(max_volume(&channels)), 37);
}

#[test]
fn a_half_is_shown_rounded_up() {
    assert_eq!(volume_to_percentage(8192), 13);
    assert_eq!(volume_to_percentage(8191), 12);
    assert_eq!(volume_to_percentage(65536), 100);
    assert_eq!(volume_to_percentage(0), 0);
}

#[test]
fn levels_of_percentages() {
    assert_eq!(percentage_to_level(0), 0);
    assert_eq!(percentage_to_level(50), 32768);
    assert_eq!(percentage_to_level(100), 65536);
    assert_eq!(percentage_to_level(1), 655);
    assert_eq!(percentage_to_level(u32::MAX), 0x7fff_ffff);
}

#[test]
fn scaling_keeps_the_balance() {
    assert_eq!(scale(&vec![20000, 40000], 10000), vec![5000, 10000]);
    assert_eq!(scale(&vec![0, 0], 700), vec![700, 700]);
    assert_eq!(scale(&vec![], 700), Vec::<u32>::new());
    assert_eq!(max_volume(&vec![3, 9, 4]), 9);
    assert_eq!(max_volume(&vec![]), 0);
}

#[test]
fn the_quietest_and_the_loudest_volume_are_shown() {
    assert_eq!(volume_to_percentage(1), 0);
    assert_eq!(volume_to_percentage(327), 0);
    assert_eq!(volume_to_percentage(328), 1);
    assert_eq!(volume_to_percentage(98304), 150);
    assert_eq!(volume_to_percentage(u32::MAX), 6553600);
}

#[test]
fn a_channel_never_leaves_the_range_of_volumes() {
    assert_eq!(scale(&vec![u32::MAX, 1], 0x7fff_ffff), vec![0x7fff_ffff, 0]);
    assert_eq!(scale(&vec![1, u32::MAX], u32::MAX), vec![1, 0x7fff_ffff]);
    assert_eq!(scale(&vec![5, 10, 0], 0), vec![0, 0, 0]);
}
