use soundtouch::bpm_detect::{bpm_window, BpmWindow, PeakFinder};
use soundtouch::fir_filter::{check_filter_length, filter_output_count};
use soundtouch::interpolate::InterpolationAlgorithm;
use soundtouch::soundtouch::{check_ready, setting_change, setting_value, SettingChange};
use soundtouch::soundstretch::{args_layout, classify_switch, ArgsLayout, Switch, SwitchValue};
use soundtouch::td_stretch::TDStretchSettings;
use soundtouch::types::{check_channels, SampleFormat, SettingId, MAX_CHANNELS};
use soundtouch::{SoundTouchError, VERSION, VERSION_ID};

#[test]
fn test_version() {
    assert!(!VERSION.is_empty());
    assert_eq!(VERSION, "2.4.0-rs");
    assert!(VERSION_ID > 0);
    assert_eq!(VERSION_ID, 20400);
}

#[test]
fn test_setting_id_from_code() {
    assert_eq!(SettingId::from(0), SettingId::UseAAFilter);
    assert_eq!(SettingId::from(3), SettingId::SequenceMs);
    assert_eq!(SettingId::from(8), SettingId::InitialLatency);
    assert_eq!(SettingId::from(9), SettingId::UseAAFilter);
    assert_ne!(SampleFormat::Float32, SampleFormat::Int16);
    assert_ne!(InterpolationAlgorithm::Linear, InterpolationAlgorithm::Cubic);
}

#[test]
fn test_check_channels() {
    assert!(check_channels(1).is_ok());
    assert!(check_channels(MAX_CHANNELS).is_ok());
    assert!(matches!(check_channels(0), Err(SoundTouchError::InvalidChannels(0))));
    assert!(matches!(check_channels(100), Err(SoundTouchError::InvalidChannels(100))));
}

#[test]
fn test_check_ready() {
    assert!(matches!(check_ready(false, 2), Err(SoundTouchError::SampleRateNotSet)));
    assert!(matches!(check_ready(false, 0), Err(SoundTouchError::SampleRateNotSet)));
    assert!(matches!(check_ready(true, 0), Err(SoundTouchError::ChannelsNotSet)));
    assert!(check_ready(true, 2).is_ok());
}

#[test]
fn test_stretch_settings_defaults_and_lengths() {
    let mut s = TDStretchSettings::new();
    assert_eq!(s.get_parameters(), (44100, 0, 0, 12));
    s.calc_seq_lengths(82, 28);
    // 44100 * 82 / 1000 and 44100 * 28 / 1000
    assert_eq!(s.seek_window_length, 3616);
    assert_eq!(s.seek_length, 1234);
    // 44100 * 12 / 1000 = 529, rounded down to a multiple of 8
    assert!(s.calculate_overlap_length(12));
    assert_eq!(s.overlap_length, 528);
    assert!(!s.calculate_overlap_length(12));
    assert!(!s.calculate_overlap_length(-1));
    assert_eq!(s.overlap_length, 528);
    s.set_sample_requirement(2500);
    assert_eq!(s.get_latency(), 3616 + 1234);
    s.set_sample_requirement(3500);
    assert_eq!(s.get_latency(), 3500 + 528 + 1234);
    assert_eq!(s.get_output_batch_size(), 3616 - 528);
}

#[test]
fn test_stretch_overlap_minimum() {
    let mut s = TDStretchSettings::new();
    s.set_parameters(8000, -1, -1, 1);
    assert!(s.calculate_overlap_length(1));
    assert_eq!(s.overlap_length, 16);
}

#[test]
fn test_stretch_parameters_read_back() {
    let mut s = TDStretchSettings::new();
    s.set_parameters(48000, 100, 20, 8);
    assert_eq!(s.get_parameters(), (48000, 100, 20, 8));
    s.set_parameters(0, -1, 0, -1);
    assert_eq!(s.get_parameters(), (48000, 100, 0, 8));
    s.enable_quick_seek(true);
    assert!(s.is_quick_seek_enabled());
}

#[test]
fn test_stretch_set_channels() {
    let mut s = TDStretchSettings::new();
    s.calculate_overlap_length(12);
    assert!(matches!(s.set_channels(2), Ok(false)));
    assert_eq!(s.overlap_length, 528);
    assert!(matches!(s.set_channels(1), Ok(true)));
    assert_eq!(s.overlap_length, 0);
    assert!(matches!(s.set_channels(0), Err(SoundTouchError::InvalidChannels(0))));
}

#[test]
fn test_setting_change_and_read_back() {
    let params = (44100, 0, 0, 12);
    assert_eq!(
        setting_change(SettingId::SequenceMs, 100, params),
        SettingChange::StretchParameters(44100, 100, 0, 12)
    );
    assert_eq!(setting_change(SettingId::UseQuickSeek, 1, params), SettingChange::UseQuickSeek(true));
    assert_eq!(setting_change(SettingId::UseAAFilter, 0, params), SettingChange::UseAAFilter(false));
    assert_eq!(setting_change(SettingId::AAFilterLength, 64, params), SettingChange::AAFilterLength(64));
    assert_eq!(setting_change(SettingId::InitialLatency, 1, params), SettingChange::ReadOnly);

    let mut s = TDStretchSettings::new();
    if let SettingChange::StretchParameters(a, b, c, d) =
        setting_change(SettingId::SequenceMs, 100, s.get_parameters())
    {
        s.set_parameters(a, b, c, d);
    }
    assert_eq!(setting_value(SettingId::SequenceMs, true, 64, false, s.get_parameters()), Some(100));
    assert_eq!(setting_value(SettingId::SeekWindowMs, true, 64, false, s.get_parameters()), Some(0));
    assert_eq!(setting_value(SettingId::UseQuickSeek, true, 64, true, s.get_parameters()), Some(1));
    assert_eq!(setting_value(SettingId::AAFilterLength, true, 64, true, s.get_parameters()), Some(64));
    assert_eq!(setting_value(SettingId::NominalInputSequence, true, 64, true, s.get_parameters()), None);
}

#[test]
fn test_filter_length_rules() {
    assert_eq!(check_filter_length(32).unwrap(), 4);
    match check_filter_length(33) {
        Err(SoundTouchError::InvalidParameter(m)) => assert_eq!(m, "FIR filter length not divisible by 8"),
        _ => panic!("33 taps must be refused"),
    }
    match check_filter_length(0) {
        Err(SoundTouchError::InvalidParameter(m)) => assert_eq!(m, "Filter length must be > 0"),
        _ => panic!("0 taps must be refused"),
    }
    assert_eq!(filter_output_count(32, 64), 32);
    assert_eq!(filter_output_count(32, 31), 0);
    assert_eq!(filter_output_count(0, 64), 0);
}

#[test]
fn test_bpm_window() {
    assert_eq!(bpm_window(44100), BpmWindow { decimate_by: 44, window_len: 1336, window_start: 300 });
    // the lowest rate accepted
    assert_eq!(bpm_window(8000), BpmWindow { decimate_by: 8, window_len: 1333, window_start: 300 });
    assert_eq!(bpm_window(48000), BpmWindow { decimate_by: 48, window_len: 1333, window_start: 300 });
}

#[test]
fn test_peak_finder() {
    let data: Vec<i64> = vec![0, 1, 2, 5, 9, 7, 3, 2, 1, 0, 1, 4, 6, 4, 1, 0, 0, 0, 0, 0, 0, 0, 0, 0, 0, 0, 0];
    let mut pf = PeakFinder::new();
    assert_eq!((pf.min_pos, pf.max_pos), (0, 0));
    assert_eq!(pf.find_peak_pos(&data, 1, 20), 4);
    // an empty range gives its start
    assert_eq!(pf.find_peak_pos(&data, 6, 6), 6);
    assert_eq!(pf.find_peak_pos(&data, 6, 2), 6);
    assert_eq!((pf.min_pos, pf.max_pos), (6, 2));
    assert_eq!(pf.find_peak_pos(&data, 1, 20), 4);
    assert_eq!(pf.find_top(&data, 3), Some(4));
    assert_eq!(pf.find_top(&data, 15), None);
    assert_eq!(pf.find_ground(&data, 4, 1), 9);
    assert_eq!(pf.find_ground(&data, 4, -1), 2);
    assert_eq!(pf.find_crossing_level(&data, 5, 4, 1), Some(5));
    assert_eq!(pf.find_crossing_level(&data, 5, 4, -1), Some(3));
    assert_eq!(pf.find_crossing_level(&data, 100, 4, 1), Some(4));
}

#[test]
fn test_crossing_walk_down_to_first_position() {
    let data: Vec<i64> = vec![0, 1, 2, 5, 9, 7, 3, 2, 1, 0];
    let pf = PeakFinder { min_pos: 0, max_pos: 10 };
    // the crossing is found before the walk gets to position 0
    assert_eq!(pf.find_crossing_level(&data, 5, 4, -1), Some(3));
    assert_eq!(pf.find_crossing_level(&data, 1, 4, -1), Some(1));
    // a walk that cannot start gives None
    assert_eq!(pf.find_crossing_level(&data, 100, 11, -1), None);
    assert_eq!(pf.find_crossing_level(&data, 100, 10, -1), Some(10));
}

fn args(list: &[&str]) -> Vec<String> {
    list.iter().map(|s| s.to_string()).collect()
}

#[test]
fn test_args_layout() {
    assert_eq!(args_layout(&args(&["st"])), ArgsLayout::TooFew);
    assert_eq!(args_layout(&args(&["st", "-license"])), ArgsLayout::License);
    assert_eq!(args_layout(&args(&["st", "in.wav"])), ArgsLayout::TooFew);
    assert_eq!(
        args_layout(&args(&["st", "in.wav", "-bpm"])),
        ArgsLayout::Files { has_output: false, switches_start: 2 }
    );
    assert_eq!(
        args_layout(&args(&["st", "in.wav", "out.wav", "-tempo=5"])),
        ArgsLayout::Files { has_output: true, switches_start: 3 }
    );
}

#[test]
fn test_classify_switch() {
    assert_eq!(classify_switch("tempo"), Switch::Unexpected);
    assert_eq!(classify_switch("-tempo=12.5"), Switch::Tempo(SwitchValue::Text("12.5".to_string())));
    assert_eq!(classify_switch("-Pitch=-3"), Switch::Pitch(SwitchValue::Text("-3".to_string())));
    assert_eq!(classify_switch("-rate"), Switch::Rate(SwitchValue::Missing));
    assert_eq!(classify_switch("-bpm"), Switch::Bpm(SwitchValue::Missing));
    assert_eq!(classify_switch("-bpm=120=x"), Switch::Bpm(SwitchValue::Text("120=x".to_string())));
    assert_eq!(classify_switch("-quick"), Switch::Quick);
    assert_eq!(classify_switch("-naa"), Switch::NoAntiAlias);
    assert_eq!(classify_switch("-speech"), Switch::Speech);
    assert_eq!(classify_switch("-license"), Switch::License);
    assert_eq!(classify_switch("-x"), Switch::Unknown);
    assert_eq!(classify_switch("-"), Switch::Unknown);
}

#[test]
fn test_invalid_channels() {
    assert!(check_channels(0).is_err());
    assert!(check_channels(100).is_err());
}

#[test]
fn test_process_without_setup() {
    // sample rate not set
    assert!(check_ready(false, 0).is_err());
    // sample rate set, channels not set
    assert!(check_ready(true, 0).is_err());
}

#[test]
fn test_invalid_length() {
    // not divisible by 8
    assert!(check_filter_length(33).is_err());
}
