use wrac::ports::{
    audio_port_type, is_supported_audio_port_request, resolve_audio_channel_count,
    AudioLayoutStore, AudioPortConfigurationRequest, AudioPortType, PortConfigurationError,
};

fn request(is_input: bool, channel_count: u32, port_type: AudioPortType) -> AudioPortConfigurationRequest {
    AudioPortConfigurationRequest { is_input, port_index: 0, channel_count, port_type }
}

#[test]
fn accepts_matching_mono_configuration() {
    let requests = [
        AudioPortConfigurationRequest {
            is_input: true,
            port_index: 0,
            channel_count: 1,
            port_type: AudioPortType::Mono,
        },
        AudioPortConfigurationRequest {
            is_input: false,
            port_index: 0,
            channel_count: 1,
            port_type: AudioPortType::Mono,
        },
    ];

    assert_eq!(resolve_audio_channel_count(2, &requests), Some(1));
}

#[test]
fn rejects_mismatched_input_output_configuration() {
    let requests = [
        AudioPortConfigurationRequest {
            is_input: true,
            port_index: 0,
            channel_count: 1,
            port_type: AudioPortType::Mono,
        },
        AudioPortConfigurationRequest {
            is_input: false,
            port_index: 0,
            channel_count: 2,
            port_type: AudioPortType::Stereo,
        },
    ];

    assert_eq!(resolve_audio_channel_count(2, &requests), None);
}

#[test]
fn empty_request_keeps_current_count() {
    assert_eq!(resolve_audio_channel_count(2, &[]), Some(2));
}

#[test]
fn one_sided_request_must_match_the_other_side() {
    assert_eq!(resolve_audio_channel_count(2, &[request(true, 1, AudioPortType::Mono)]), None);
    assert_eq!(resolve_audio_channel_count(1, &[request(false, 1, AudioPortType::Unspecified)]), Some(1));
}

#[test]
fn later_request_for_a_side_wins() {
    let requests = [
        request(true, 1, AudioPortType::Mono),
        request(false, 2, AudioPortType::Stereo),
        request(true, 2, AudioPortType::Unspecified),
    ];
    assert_eq!(resolve_audio_channel_count(1, &requests), Some(2));
}

#[test]
fn sidechain_port_and_odd_layouts_are_refused() {
    let mut sidechain = request(true, 2, AudioPortType::Stereo);
    sidechain.port_index = 1;
    assert_eq!(resolve_audio_channel_count(2, &[sidechain]), None);
    assert!(!is_supported_audio_port_request(&request(true, 1, AudioPortType::Stereo)));
    assert!(!is_supported_audio_port_request(&request(true, 6, AudioPortType::Unspecified)));
    assert!(is_supported_audio_port_request(&request(false, 2, AudioPortType::Unspecified)));
}

#[test]
fn port_type_follows_channel_count() {
    assert_eq!(audio_port_type(1), AudioPortType::Mono);
    assert_eq!(audio_port_type(2), AudioPortType::Stereo);
    assert_eq!(audio_port_type(6), AudioPortType::Unspecified);
}

#[test]
fn layout_store_applies_and_refuses() {
    let mut layout = AudioLayoutStore::new(2);
    assert_eq!(layout.audio_port_count(true), 1);
    let info = layout.audio_port_info(0, true).unwrap();
    assert_eq!(info.id, 1);
    assert_eq!(info.name, "Main In");
    assert_eq!(info.port_type, AudioPortType::Stereo);
    assert_eq!(layout.audio_port_info(0, false).unwrap().name, "Main Out");
    assert!(layout.audio_port_info(1, true).is_none());

    let mono = [request(true, 1, AudioPortType::Mono), request(false, 1, AudioPortType::Mono)];
    assert!(layout.can_apply_audio_port_configuration(&mono));
    assert_eq!(layout.apply_audio_port_configuration(&mono), Ok(()));
    assert_eq!(layout.channel_count(), 1);
    assert_eq!(layout.audio_port_info(0, false).unwrap().port_type, AudioPortType::Mono);
    assert_eq!(layout.apply_audio_port_configuration(&mono), Ok(()));
    assert_eq!(layout.channel_count(), 1);

    let bad = [request(true, 2, AudioPortType::Stereo)];
    assert!(!layout.can_apply_audio_port_configuration(&bad));
    assert_eq!(
        layout.apply_audio_port_configuration(&bad),
        Err(PortConfigurationError::InvalidState)
    );
    assert_eq!(layout.channel_count(), 1);
}
