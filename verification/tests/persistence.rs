use quad::codec::encode_project;
use quad::decode::decode_project;
use quad::errors::CommandError;
use quad::messages::{FrameMessage, LayerMessage, ProjectMessage};
use quad::persist::{
    check_save_path, derive_project_name, finish_load, load_project, prepare_save, require_choice,
};

fn sample_project() -> ProjectMessage {
    ProjectMessage {
        name: b"sprite".to_vec(),
        width: 2,
        height: 1,
        frames: vec![
            FrameMessage {
                layers: vec![
                    LayerMessage { name: b"background".to_vec(), data: vec![1, 2, 3, 4, 5, 6, 7, 8] },
                    LayerMessage { name: b"outline".to_vec(), data: vec![9, 9, 9, 9, 0, 0, 0, 0] },
                ],
            },
            FrameMessage { layers: vec![LayerMessage { name: b"only".to_vec(), data: vec![] }] },
        ],
        colors: vec![vec![0xff00ff00, 0x00000000], vec![], vec![0x12345678]],
        path: b"/tmp/old-location.quad".to_vec(),
    }
}

#[test]
fn save_then_load_reproduces_every_field_but_path() {
    let original = sample_project();
    let bytes = encode_project(&original);
    let loaded = load_project(&bytes, b"/elsewhere/sprite.quad".to_vec()).unwrap();
    assert_eq!(loaded.name, original.name);
    assert_eq!(loaded.width, original.width);
    assert_eq!(loaded.height, original.height);
    assert_eq!(loaded.frames.len(), original.frames.len());
    for (lf, of) in loaded.frames.iter().zip(original.frames.iter()) {
        assert_eq!(lf.layers.len(), of.layers.len());
        for (ll, ol) in lf.layers.iter().zip(of.layers.iter()) {
            assert_eq!(ll.name, ol.name);
            assert_eq!(ll.data, ol.data);
        }
    }
    assert_eq!(loaded.colors, original.colors);
    assert_eq!(loaded.path, b"/elsewhere/sprite.quad".to_vec());
}

#[test]
fn serialized_path_is_never_trusted() {
    let mut original = sample_project();
    original.path = b"/a/path/that/moved.quad".to_vec();
    let bytes = encode_project(&original);
    let loaded = load_project(&bytes, b"/the/real/spot.quad".to_vec()).unwrap();
    assert_eq!(loaded.path, b"/the/real/spot.quad".to_vec());
}

#[test]
fn decode_rejects_garbage() {
    let r = decode_project(&vec![0xde, 0xad, 0xbe, 0xef]);
    assert!(matches!(r, Err(CommandError::DecodeFailure(_))));
}

#[test]
fn decode_rejects_truncated_encoding() {
    let bytes = encode_project(&sample_project());
    let cut = bytes[..bytes.len() - 1].to_vec();
    let r = decode_project(&cut);
    assert!(matches!(r, Err(CommandError::DecodeFailure(_))));
}

#[test]
fn decode_rejects_trailing_bytes() {
    let mut bytes = encode_project(&sample_project());
    bytes.push(0);
    let r = decode_project(&bytes);
    assert!(matches!(r, Err(CommandError::DecodeFailure(_))));
}

#[test]
fn decode_rejects_empty_input() {
    let r = decode_project(&Vec::new());
    assert!(matches!(r, Err(CommandError::DecodeFailure(_))));
}

#[test]
fn decode_accepts_exact_encoding() {
    let bytes = encode_project(&sample_project());
    assert!(decode_project(&bytes).is_ok());
}

#[test]
fn derived_name_strips_exactly_five_bytes() {
    assert_eq!(derive_project_name(&b"sprite.quad".to_vec()), b"sprite".to_vec());
    assert_eq!(derive_project_name(&b"a.quad".to_vec()), b"a".to_vec());
    // The truncation is purely arithmetic, not extension-aware.
    assert_eq!(derive_project_name(&b"oddly.named".to_vec()), b"oddly.".to_vec());
    assert_eq!(derive_project_name(&b".quad".to_vec()), Vec::<u8>::new());
}

#[test]
fn prepare_save_renames_and_serializes() {
    let mut project = sample_project();
    let bytes = prepare_save(&mut project, &b"renamed.quad".to_vec());
    assert_eq!(project.name, b"renamed".to_vec());
    // The stale stored path is serialized as it stands.
    assert_eq!(project.path, b"/tmp/old-location.quad".to_vec());
    let loaded = load_project(&bytes, b"/tmp/renamed.quad".to_vec()).unwrap();
    assert_eq!(loaded.name, b"renamed".to_vec());
}

#[test]
fn empty_path_is_invalid_for_save() {
    assert!(matches!(check_save_path(&Vec::new()), Err(CommandError::InvalidPath)));
    assert!(check_save_path(&b"/somewhere/p.quad".to_vec()).is_ok());
}

#[test]
fn cancelled_dialog_reports_user_cancelled() {
    assert!(matches!(require_choice(None), Err(CommandError::UserCancelled)));
    let chosen = require_choice(Some(b"/chosen/file.quad".to_vec())).unwrap();
    assert_eq!(chosen, b"/chosen/file.quad".to_vec());
}

#[test]
fn finish_load_overwrites_only_the_path() {
    let mut project = sample_project();
    finish_load(&mut project, b"/fresh/path.quad".to_vec());
    assert_eq!(project.path, b"/fresh/path.quad".to_vec());
    assert_eq!(project.name, b"sprite".to_vec());
}

#[test]
fn error_messages_are_descriptive() {
    assert!(!CommandError::UserCancelled.message().is_empty());
    let text = CommandError::IOFailure("disk full".to_string()).message();
    assert!(text.contains("disk full"));
    let text = CommandError::DecodeFailure("bad byte".to_string()).message();
    assert!(text.contains("bad byte"));
}
