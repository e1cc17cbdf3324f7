use opus_decode::get_opus_packet;
use opus_decode::packet_config_from_toc_byte;
use opus_decode::FrameCountCode;
use opus_decode::Signal;

#[test]
fn it_should_recognize_stereo() {
    let config = packet_config_from_toc_byte(0b0000_0100).unwrap();
    assert_eq!(config.signal, Signal::Stereo);
}

#[test]
fn it_should_recognize_code_1() {
    let config = packet_config_from_toc_byte(0b0000_0001).unwrap();
    assert_eq!(config.code, FrameCountCode::TwoEqual);
}

#[test]
fn it_should_recognize_code_2() {
    let config = packet_config_from_toc_byte(0b0000_0010).unwrap();
    assert_eq!(config.code, FrameCountCode::TwoDifferent);
}

#[test]
fn it_should_recognize_code_3() {
    let config = packet_config_from_toc_byte(0b0000_0011).unwrap();
    assert_eq!(config.code, FrameCountCode::Arbitrary);
}

#[test]
fn it_creates_packet_config_from_u8() {
    for byte in 0..255 {
        let config = packet_config_from_toc_byte(byte);
        assert!(config.is_ok());
    }
}

#[test]
fn lib_it_creates_packet_config_from_u8() {
    for byte in 0..255 {
        println!("Byte is: {}", byte);
        let config = packet_config_from_toc_byte(byte);
        assert!(config.is_ok());
    }
}

#[test]
fn it_should_create_opus_packet() {
    let bytes = vec![0, 0];
    assert_eq!(true, get_opus_packet(&bytes).is_ok())
}

#[test]
fn it_creates_opus_packet_from_vec_u8() {
    let _ = get_opus_packet(&[].to_vec()); // Don't care about the result since it should fail
}

#[test]
#[should_panic]
fn lib_it_creates_opus_packet_from_vec_u8() {
    get_opus_packet(&[].to_vec()).unwrap();
}
