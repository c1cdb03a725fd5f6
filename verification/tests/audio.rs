//! The sound of the bar.
use xbar::audio::{
    decode_commands, encode_command, percent_of_volume, refresh_detail_for, volume_of_percent,
    AudioCommand, AudioOperation,
};

#[test]
fn removed_audio_object_never_requests_detail_refresh() {
    assert!(!refresh_detail_for(Some(AudioOperation::Removed)));
    assert!(refresh_detail_for(Some(AudioOperation::New)));
    assert!(refresh_detail_for(Some(AudioOperation::Changed)));
    assert!(refresh_detail_for(None));
}

#[test]
fn commands_survive_the_pipe() {
    for command in [
        AudioCommand::SetOutputVolume(42),
        AudioCommand::ToggleOutputMute,
        AudioCommand::SetInputVolume(7),
        AudioCommand::ToggleInputMute,
        AudioCommand::SetDefaultOutput("alsa_output.ação".to_owned()),
        AudioCommand::SetDefaultInput("alsa_input.pci".to_owned()),
    ] {
        let bytes = encode_command(&command).expect("a short command");
        assert_eq!(decode_commands(&bytes), vec![command]);
    }
}

#[test]
fn volumes_are_percentages_of_the_norm() {
    assert_eq!(percent_of_volume(0x10000), 100);
    assert_eq!(volume_of_percent(100), 0x10000);
    assert_eq!(percent_of_volume(volume_of_percent(37)), 37);
}
