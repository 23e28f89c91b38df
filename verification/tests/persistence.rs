use citrus_field::codec::{
    decode_field, decode_view, deserialize, encode_field, encode_view, serialize, DecodeError,
};
use citrus_field::input::{MouseButtons, MouseModifiers};
use citrus_field::panel::PanelKind;
use citrus_field::transform::FP_ONE;
use citrus_field::view::EditorView;

fn assert_same_view(a: &EditorView, b: &EditorView) {
    assert_eq!(a.view, b.view);
    assert_eq!(a.selected, b.selected);
    assert_eq!(a.field.width(), b.field.width());
    assert_eq!(a.field.height(), b.field.height());
    for y in 0..a.field.height() {
        for x in 0..a.field.width() {
            assert_eq!(a.field.get(x, y), b.field.get(x, y));
        }
    }
}

#[test]
fn panel_kind_codec() {
    assert_eq!(serialize(&PanelKind::Empty), 0);
    assert_eq!(serialize(&PanelKind::Home), 3);
    assert_eq!(serialize(&PanelKind::Damage2x), 21);
    assert_eq!(deserialize(3), Ok(PanelKind::Home));
    assert_eq!(deserialize(21), Ok(PanelKind::Damage2x));
    assert_eq!(deserialize(22), Err(DecodeError::BadKind));
    assert_eq!(deserialize(255), Err(DecodeError::BadKind));
    // out-of-range input is reduced to a byte first
    assert_eq!(deserialize(256), Ok(PanelKind::Empty));
    for b in 0..22u64 {
        let kind = deserialize(b).unwrap();
        assert_eq!(serialize(&kind) as u64, b);
    }
}

#[test]
fn field_codec_round_trip() {
    let ev = EditorView::new_example();
    let bytes = encode_field(&ev.field);
    assert_eq!(bytes.len(), 4 + 36);
    let back = decode_field(&bytes).unwrap();
    assert_eq!(back.width(), 6);
    assert_eq!(back.height(), 6);
    for y in 0..6 {
        for x in 0..6 {
            assert_eq!(back.get(x, y), ev.field.get(x, y));
        }
    }
}

#[test]
fn view_codec_round_trip() {
    let mut ev = EditorView::new_example();
    ev.pan((50 * FP_ONE, -3 * FP_ONE));
    ev.selected = PanelKind::Ice;
    // edit the board so the encoding carries a grown, non-seed state
    ev.apply_mouse_up(
        MouseButtons(1),
        MouseModifiers(0),
        ((50 - 256 + 64) * FP_ONE, 448 * FP_ONE),
    );
    let bytes = encode_view(&ev);
    let back = decode_view(&bytes).unwrap();
    assert_same_view(&ev, &back);
}

#[test]
fn view_codec_round_trip_degenerate() {
    let ev = EditorView::default();
    let bytes = encode_view(&ev);
    let back = decode_view(&bytes).unwrap();
    assert_same_view(&ev, &back);
}

#[test]
fn decode_rejects_short_input() {
    assert!(matches!(decode_view(&vec![]), Err(DecodeError::TooShort)));
    assert!(matches!(decode_view(&vec![0u8; 32]), Err(DecodeError::TooShort)));
    let bytes = encode_view(&EditorView::new_example());
    let truncated = bytes[..bytes.len() - 1].to_vec();
    assert!(matches!(decode_view(&truncated), Err(DecodeError::TooShort)));
}

#[test]
fn decode_rejects_bad_selected_kind() {
    let mut bytes = encode_view(&EditorView::new_example());
    bytes[32] = 99;
    assert!(matches!(decode_view(&bytes), Err(DecodeError::BadKind)));
}

#[test]
fn decode_rejects_bad_cell_kind() {
    let mut bytes = encode_view(&EditorView::new_example());
    bytes[37] = 200;
    assert!(matches!(decode_view(&bytes), Err(DecodeError::BadKind)));
}

#[test]
fn decode_rejects_degenerate_transform() {
    let mut bytes = encode_view(&EditorView::new_example());
    // zero out the x scale: the biased word for zero is 1 << 63
    for b in bytes.iter_mut().take(8) {
        *b = 0;
    }
    bytes[7] = 0x80;
    assert!(matches!(decode_view(&bytes), Err(DecodeError::BadTransform)));
}

#[test]
fn decode_rejects_oversized_dimensions() {
    let mut bytes = encode_view(&EditorView::new_example());
    // announce a board width beyond the supported bound
    bytes[34] = 0x80;
    assert!(matches!(decode_view(&bytes), Err(DecodeError::BadDimensions)));
}

#[test]
fn transform_coefficients_round_trip_exactly() {
    let mut ev = EditorView::new_example();
    ev.pan((-123456789, 987654321));
    ev.scale(3 * FP_ONE / 2, (17, -4));
    let bytes = encode_view(&ev);
    let back = decode_view(&bytes).unwrap();
    assert_eq!(back.view.sx, ev.view.sx);
    assert_eq!(back.view.sy, ev.view.sy);
    assert_eq!(back.view.tx, ev.view.tx);
    assert_eq!(back.view.ty, ev.view.ty);
}
