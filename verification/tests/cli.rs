use sound_player::cli::music_dir_arg;

fn args(list: &[&str]) -> Vec<String> {
    list.iter().map(|s| s.to_string()).collect()
}

#[test]
fn the_first_plain_argument_names_the_music_folder() {
    assert_eq!(music_dir_arg(&args(&["karaoke", "/music"])), Some(1));
    assert_eq!(music_dir_arg(&args(&["karaoke", "-v", "/music"])), Some(2));
    assert_eq!(music_dir_arg(&args(&["karaoke"])), None);
    assert_eq!(music_dir_arg(&args(&["karaoke", "-x"])), None);
}

#[test]
fn the_frame_flag_and_its_width_are_skipped() {
    assert_eq!(music_dir_arg(&args(&["karaoke", "--frame", "80", "/music"])), Some(3));
    assert_eq!(music_dir_arg(&args(&["karaoke", "--frame", "80"])), None);
    assert_eq!(music_dir_arg(&args(&["karaoke", "--frame"])), None);
}
