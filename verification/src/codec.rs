//! Lossless binary encoding of the editor state: the board's cell kinds in
//! row-major order, the transform's coefficients exactly, and the selected
//! panel kind. A corrupt input is rejected with a [`DecodeError`]; a host
//! falls back to a seed layout in that case.

use vstd::prelude::*;
use vstd::arithmetic::div_mod::{
    lemma_fundamental_div_mod,
    lemma_div_denominator,
    lemma_div_is_ordered,
    lemma_small_mod,
};

use crate::field::{Field, DIM_MAX, lemma_flat_index_bound};
use crate::panel::{Panel, PanelKind, KIND_COUNT};
use crate::transform::{Transform, MAX_ZOOM, TRANS_LIMIT};
use crate::view::EditorView;

verus! {

/// Why a persisted blob was rejected.
#[derive(Clone, Copy, PartialEq, Eq, Structural, Debug)]
pub enum DecodeError {
    /// The input ends before the announced data.
    TooShort,
    /// A cell or the selected-kind byte holds no panel kind ordinal.
    BadKind,
    /// The announced board dimensions exceed the supported bounds.
    BadDimensions,
    /// The transform coefficients are out of range or degenerate.
    BadTransform,
}

/// Serializes a panel kind as its stable ordinal byte.
pub fn serialize(kind: &PanelKind) -> (r: u8)
    ensures
        r == kind.ordinal(),
{
    kind.to_byte()
}

/// Deserializes a panel kind from an integer: the value is reduced to a
/// byte and must be a valid ordinal.
pub fn deserialize(value: u64) -> (r: Result<PanelKind, DecodeError>)
    ensures
        (value as u8) < KIND_COUNT ==> r == Ok::<PanelKind, DecodeError>(
            PanelKind::from_ordinal((value as u8) as int),
        ),
        (value as u8) >= KIND_COUNT ==> r == Err::<PanelKind, DecodeError>(DecodeError::BadKind),
{
    let byte = #[verifier::truncate] (value as u8);
    match PanelKind::try_from_byte(byte) {
        Some(kind) => Ok(kind),
        None => Err(DecodeError::BadKind),
    }
}

/// Reads the cell-kind byte of column `x` of row `y` in the payload of a
/// board encoding that starts at `off`.
pub open spec fn payload_at(s: Seq<u8>, off: int, w: int, x: int, y: int) -> u8 {
    s[off + 4 + y * w + x]
}

/// The board width announced by an encoding starting at `off`.
pub open spec fn enc_w(s: Seq<u8>, off: int) -> int {
    (s[off] as int) + 256 * (s[off + 1] as int)
}

/// The board height announced by an encoding starting at `off`.
pub open spec fn enc_h(s: Seq<u8>, off: int) -> int {
    (s[off + 2] as int) + 256 * (s[off + 3] as int)
}

/// What it means for the bytes from `off` on to encode exactly the board
/// `f`: two little-endian dimension words, then one ordinal byte per cell
/// in row-major order, filling the rest of the input.
pub open spec fn is_field_encoding_of(s: Seq<u8>, off: int, f: Field) -> bool {
    &&& s.len() - off == 4 + f.spec_width() * f.spec_height()
    &&& enc_w(s, off) == f.spec_width()
    &&& enc_h(s, off) == f.spec_height()
    &&& forall|x: int, y: int| f.spec_in_bounds(x, y) ==>
        #[trigger] payload_at(s, off, f.spec_width(), x, y) == f.cell(x, y).kind.ordinal()
}

/// Whether the bytes from `off` on form a decodable board encoding.
pub open spec fn is_valid_field_encoding(s: Seq<u8>, off: int) -> bool {
    &&& s.len() - off >= 4
    &&& 0 <= enc_w(s, off) < DIM_MAX
    &&& 0 <= enc_h(s, off) < DIM_MAX
    &&& s.len() - off == 4 + enc_w(s, off) * enc_h(s, off)
    &&& forall|x: int, y: int| 0 <= x < enc_w(s, off) && 0 <= y < enc_h(s, off) ==>
        (#[trigger] payload_at(s, off, enc_w(s, off), x, y)) < KIND_COUNT
}

/// Encodes a board: dimensions, then one ordinal byte per cell, row-major.
pub fn encode_field(f: &Field) -> (r: Vec<u8>)
    requires
        f.wf(),
    ensures
        is_field_encoding_of(r@, 0, *f),
        is_valid_field_encoding(r@, 0),
{
    let w = f.width();
    let h = f.height();
    let mut out: Vec<u8> = Vec::new();
    out.push((w % 256) as u8);
    out.push((w / 256) as u8);
    out.push((h % 256) as u8);
    out.push((h / 256) as u8);
    proof {
        lemma_fundamental_div_mod(w as int, 256);
        lemma_fundamental_div_mod(h as int, 256);
    }
    let mut y: usize = 0;
    while y < h
        invariant
            f.wf(),
            w == f.spec_width(),
            h == f.spec_height(),
            y <= h,
            out@.len() == 4 + y * w,
            enc_w(out@, 0) == w,
            enc_h(out@, 0) == h,
            forall|xx: int, yy: int| 0 <= xx < w && 0 <= yy < y ==>
                #[trigger] payload_at(out@, 0, w as int, xx, yy)
                    == f.cell(xx, yy).kind.ordinal(),
        decreases h - y,
    {
        let mut x: usize = 0;
        while x < w
            invariant
                f.wf(),
                w == f.spec_width(),
                h == f.spec_height(),
                y < h,
                x <= w,
                out@.len() == 4 + y * w + x,
                enc_w(out@, 0) == w,
                enc_h(out@, 0) == h,
                forall|xx: int, yy: int| 0 <= xx < w && 0 <= yy < y ==>
                    #[trigger] payload_at(out@, 0, w as int, xx, yy)
                        == f.cell(xx, yy).kind.ordinal(),
                forall|xx: int| 0 <= xx < x ==>
                    #[trigger] payload_at(out@, 0, w as int, xx, y as int)
                        == f.cell(xx, y as int).kind.ordinal(),
            decreases w - x,
        {
            let ghost pre = out@;
            out.push(f.get(x, y).kind.to_byte());
            proof {
                assert forall|xx: int, yy: int|
                    0 <= xx < w && 0 <= yy < y implies
                    #[trigger] payload_at(out@, 0, w as int, xx, yy)
                        == f.cell(xx, yy).kind.ordinal() by {
                    lemma_flat_index_bound(w as int, y as int, xx, yy);
                    assert(payload_at(pre, 0, w as int, xx, yy)
                        == f.cell(xx, yy).kind.ordinal());
                }
                assert forall|xx: int| 0 <= xx <= x implies
                    #[trigger] payload_at(out@, 0, w as int, xx, y as int)
                        == f.cell(xx, y as int).kind.ordinal() by {
                    if xx < x {
                        assert(payload_at(pre, 0, w as int, xx, y as int)
                            == f.cell(xx, y as int).kind.ordinal());
                    }
                }
            }
            x += 1;
        }
        proof {
            assert((y + 1) * w == y * w + w) by (nonlinear_arith);
        }
        y += 1;
    }
    proof {
        assert((h as int) * (w as int) == (w as int) * (h as int)) by (nonlinear_arith);
        assert forall|x: int, y: int|
            0 <= x < w && 0 <= y < h implies
            (#[trigger] payload_at(out@, 0, w as int, x, y)) < KIND_COUNT by {
            f.cell(x, y).kind.lemma_ordinal_bijective();
        }
    }
    out
}

/// Decodes a board encoding starting at `off`. Exactly the valid encodings
/// are accepted, and the decoded board carries the encoded cells.
pub fn decode_field_at(bytes: &Vec<u8>, off: usize) -> (r: Result<Field, DecodeError>)
    requires
        off <= bytes@.len(),
    ensures
        r is Ok <==> is_valid_field_encoding(bytes@, off as int),
        r matches Ok(f) ==> f.wf() && is_field_encoding_of(bytes@, off as int, f),
        bytes@.len() - off < 4 ==> r == Err::<Field, DecodeError>(DecodeError::TooShort),
        bytes@.len() - off >= 4 && !(enc_w(bytes@, off as int) < DIM_MAX
            && enc_h(bytes@, off as int) < DIM_MAX)
            ==> r == Err::<Field, DecodeError>(DecodeError::BadDimensions),
        bytes@.len() - off >= 4 && enc_w(bytes@, off as int) < DIM_MAX
            && enc_h(bytes@, off as int) < DIM_MAX
            && bytes@.len() - off != 4 + enc_w(bytes@, off as int) * enc_h(bytes@, off as int)
            ==> r == Err::<Field, DecodeError>(DecodeError::TooShort),
        bytes@.len() - off >= 4 && enc_w(bytes@, off as int) < DIM_MAX
            && enc_h(bytes@, off as int) < DIM_MAX
            && bytes@.len() - off == 4 + enc_w(bytes@, off as int) * enc_h(bytes@, off as int)
            && !is_valid_field_encoding(bytes@, off as int)
            ==> r == Err::<Field, DecodeError>(DecodeError::BadKind),
{
    if bytes.len() - off < 4 {
        return Err(DecodeError::TooShort);
    }
    let w = (bytes[off] as usize) + 256 * (bytes[off + 1] as usize);
    let h = (bytes[off + 2] as usize) + 256 * (bytes[off + 3] as usize);
    if w >= DIM_MAX as usize || h >= DIM_MAX as usize {
        return Err(DecodeError::BadDimensions);
    }
    proof {
        assert(0 <= (w as int) * (h as int) < DIM_MAX * DIM_MAX) by (nonlinear_arith)
            requires
                0 <= w < DIM_MAX,
                0 <= h < DIM_MAX,
        ;
    }
    if bytes.len() - off != 4 + w * h {
        return Err(DecodeError::TooShort);
    }
    if w == 0 || h == 0 {
        proof {
            assert((w as int) * (h as int) == 0) by (nonlinear_arith)
                requires
                    w == 0 || h == 0,
            ;
        }
        return Ok(Field::new_filled(w, h, Panel::empty()));
    }
    let mut rows: Vec<Vec<Panel>> = Vec::new();
    let mut y: usize = 0;
    while y < h
        invariant
            off + 4 + w * h == bytes@.len(),
            bytes@.len() <= usize::MAX,
            w == enc_w(bytes@, off as int),
            h == enc_h(bytes@, off as int),
            0 <= w < DIM_MAX,
            0 <= h < DIM_MAX,
            y <= h,
            rows@.len() == y,
            forall|yy: int| 0 <= yy < y ==> #[trigger] rows@[yy]@.len() == w,
            forall|xx: int, yy: int| 0 <= xx < w && 0 <= yy < y ==> {
                &&& (#[trigger] payload_at(bytes@, off as int, w as int, xx, yy)) < KIND_COUNT
                &&& rows@[yy]@[xx] == (Panel {
                    kind: PanelKind::from_ordinal(
                        payload_at(bytes@, off as int, w as int, xx, yy) as int,
                    ),
                })
            },
        decreases h - y,
    {
        let mut row: Vec<Panel> = Vec::new();
        let mut x: usize = 0;
        while x < w
            invariant
                off + 4 + w * h == bytes@.len(),
                bytes@.len() <= usize::MAX,
                w == enc_w(bytes@, off as int),
                h == enc_h(bytes@, off as int),
                0 <= w < DIM_MAX,
                0 <= h < DIM_MAX,
                y < h,
                x <= w,
                row@.len() == x,
                forall|xx: int| 0 <= xx < x ==> {
                    &&& (#[trigger] payload_at(bytes@, off as int, w as int, xx, y as int))
                        < KIND_COUNT
                    &&& row@[xx] == (Panel {
                        kind: PanelKind::from_ordinal(
                            payload_at(bytes@, off as int, w as int, xx, y as int) as int,
                        ),
                    })
                },
            decreases w - x,
        {
            proof {
                lemma_flat_index_bound(w as int, h as int, x as int, y as int);
                assert((h as int) * (w as int) == (w as int) * (h as int)) by (nonlinear_arith);
            }
            let b = bytes[off + 4 + y * w + x];
            match PanelKind::try_from_byte(b) {
                Some(kind) => {
                    row.push(Panel { kind });
                }
                None => {
                    proof {
                        assert(payload_at(bytes@, off as int, w as int, x as int, y as int)
                            >= KIND_COUNT);
                        assert(!is_valid_field_encoding(bytes@, off as int));
                    }
                    return Err(DecodeError::BadKind);
                }
            }
            x += 1;
        }
        rows.push(row);
        y += 1;
    }
    let f = Field::new_slice(&rows);
    proof {
        assert forall|x: int, y: int| f.spec_in_bounds(x, y) implies
            #[trigger] payload_at(bytes@, off as int, f.spec_width(), x, y)
                == f.cell(x, y).kind.ordinal() by {
            assert(f.cell(x, y) == rows@[y]@[x]);
            PanelKind::from_ordinal(
                payload_at(bytes@, off as int, w as int, x, y) as int,
            ).lemma_ordinal_bijective();
        }
    }
    Ok(f)
}

/// Decodes a board encoding.
pub fn decode_field(bytes: &Vec<u8>) -> (r: Result<Field, DecodeError>)
    ensures
        r is Ok <==> is_valid_field_encoding(bytes@, 0),
        r matches Ok(f) ==> f.wf() && is_field_encoding_of(bytes@, 0, f),
{
    decode_field_at(bytes, 0)
}

/// A board encoding determines the board: two boards with the same
/// encoding hold the same cells, and a board's own encoding is valid, so
/// decoding it succeeds and recovers the board exactly.
pub proof fn lemma_field_codec_lossless(s: Seq<u8>, off: int, f: Field, g: Field)
    requires
        f.wf(),
        g.wf(),
        is_field_encoding_of(s, off, f),
        is_field_encoding_of(s, off, g),
    ensures
        g.spec_width() == f.spec_width(),
        g.spec_height() == f.spec_height(),
        forall|x: int, y: int| f.spec_in_bounds(x, y) ==>
            #[trigger] g.cell(x, y) == f.cell(x, y),
{
    assert forall|x: int, y: int| f.spec_in_bounds(x, y) implies
        #[trigger] g.cell(x, y) == f.cell(x, y) by {
        assert(payload_at(s, off, f.spec_width(), x, y) == f.cell(x, y).kind.ordinal());
        assert(payload_at(s, off, g.spec_width(), x, y) == g.cell(x, y).kind.ordinal());
        f.cell(x, y).kind.lemma_ordinal_bijective();
        g.cell(x, y).kind.lemma_ordinal_bijective();
    }
}

/// Two's-complement bias: a signed coefficient is stored as the unsigned
/// number `value + BIAS`.
pub const BIAS: u64 = 0x8000_0000_0000_0000;

/// The little-endian bytes of an unsigned 64-bit word.
pub open spec fn le8(v: u64) -> Seq<u8> {
    seq![
        (v % 256) as u8,
        ((v / 256) % 256) as u8,
        ((v / 65536) % 256) as u8,
        ((v / 16777216) % 256) as u8,
        ((v / 4294967296) % 256) as u8,
        ((v / 1099511627776) % 256) as u8,
        ((v / 281474976710656) % 256) as u8,
        ((v / 72057594037927936) % 256) as u8,
    ]
}

/// The unsigned value of eight little-endian bytes at `off`.
pub open spec fn from_le8(s: Seq<u8>, off: int) -> int {
    (s[off] as int) + 256 * ((s[off + 1] as int) + 256 * ((s[off + 2] as int)
        + 256 * ((s[off + 3] as int) + 256 * ((s[off + 4] as int)
        + 256 * ((s[off + 5] as int) + 256 * ((s[off + 6] as int)
        + 256 * (s[off + 7] as int)))))))
}

/// The byte decomposition of a 64-bit word is exact.
pub proof fn lemma_le8_round_trip(v: u64)
    ensures
        from_le8(le8(v), 0) == v,
{
    let x = v as int;
    lemma_div_denominator(x, 256, 256);
    lemma_div_denominator(x, 65536, 256);
    lemma_div_denominator(x, 16777216, 256);
    lemma_div_denominator(x, 4294967296, 256);
    lemma_div_denominator(x, 1099511627776, 256);
    lemma_div_denominator(x, 281474976710656, 256);
    lemma_fundamental_div_mod(x, 256);
    lemma_fundamental_div_mod(x / 256, 256);
    lemma_fundamental_div_mod(x / 65536, 256);
    lemma_fundamental_div_mod(x / 16777216, 256);
    lemma_fundamental_div_mod(x / 4294967296, 256);
    lemma_fundamental_div_mod(x / 1099511627776, 256);
    lemma_fundamental_div_mod(x / 281474976710656, 256);
    lemma_div_is_ordered(x, u64::MAX as int, 72057594037927936);
    lemma_small_mod((x / 72057594037927936) as nat, 256);
}

/// Appends the little-endian bytes of a biased signed coefficient.
fn encode_i64(out: &mut Vec<u8>, x: i64)
    ensures
        final(out)@ == old(out)@ + le8((((x as int) + BIAS) as u64)),
        final(out)@.len() == old(out)@.len() + 8,
        from_le8(final(out)@, old(out)@.len() as int) == (x as int) + BIAS,
{
    let u = (((x as i128) + (BIAS as i128)) as u64);
    out.push((u % 256) as u8);
    out.push(((u / 256) % 256) as u8);
    out.push(((u / 65536) % 256) as u8);
    out.push(((u / 16777216) % 256) as u8);
    out.push(((u / 4294967296) % 256) as u8);
    out.push(((u / 1099511627776) % 256) as u8);
    out.push(((u / 281474976710656) % 256) as u8);
    out.push(((u / 72057594037927936) % 256) as u8);
    proof {
        assert(out@ =~= old(out)@ + le8(u));
        lemma_le8_round_trip(u);
        assert(from_le8(out@, old(out)@.len() as int) == from_le8(le8(u), 0));
    }
}

/// Reads a biased signed coefficient from eight little-endian bytes.
fn decode_i64_at(bytes: &Vec<u8>, off: usize) -> (r: i64)
    requires
        off + 8 <= bytes@.len(),
        bytes@.len() <= usize::MAX,
    ensures
        (r as int) + BIAS == from_le8(bytes@, off as int),
{
    let mut v: u64 = bytes[off + 7] as u64;
    v = v * 256 + (bytes[off + 6] as u64);
    v = v * 256 + (bytes[off + 5] as u64);
    v = v * 256 + (bytes[off + 4] as u64);
    v = v * 256 + (bytes[off + 3] as u64);
    v = v * 256 + (bytes[off + 2] as u64);
    v = v * 256 + (bytes[off + 1] as u64);
    v = v * 256 + (bytes[off] as u64);
    (((v as i128) - (BIAS as i128)) as i64)
}

/// What it means for `s` to encode exactly the editor state `v`: the four
/// transform coefficients as biased little-endian words, the selected kind
/// ordinal, then the board encoding.
pub open spec fn is_view_encoding_of(s: Seq<u8>, v: EditorView) -> bool {
    &&& s.len() >= 33
    &&& from_le8(s, 0) == (v.view.sx as int) + BIAS
    &&& from_le8(s, 8) == (v.view.sy as int) + BIAS
    &&& from_le8(s, 16) == (v.view.tx as int) + BIAS
    &&& from_le8(s, 24) == (v.view.ty as int) + BIAS
    &&& (s[32] as int) == v.selected.ordinal()
    &&& is_field_encoding_of(s, 33, v.field)
}

/// Whether `s` is a decodable editor state: well-formed transform
/// coefficients, a valid selected kind, and a valid board encoding.
pub open spec fn is_valid_view_encoding(s: Seq<u8>) -> bool {
    &&& s.len() >= 33
    &&& 0 < from_le8(s, 0) - BIAS <= MAX_ZOOM
    &&& 0 < from_le8(s, 8) - BIAS <= MAX_ZOOM
    &&& -TRANS_LIMIT <= from_le8(s, 16) - BIAS <= TRANS_LIMIT
    &&& -TRANS_LIMIT <= from_le8(s, 24) - BIAS <= TRANS_LIMIT
    &&& (s[32] as int) < KIND_COUNT
    &&& is_valid_field_encoding(s, 33)
}

/// Encodes the whole editor state: transform coefficients exactly, the
/// selected kind, and the board.
pub fn encode_view(v: &EditorView) -> (r: Vec<u8>)
    requires
        v.wf(),
    ensures
        is_view_encoding_of(r@, *v),
        is_valid_view_encoding(r@),
{
    let mut out: Vec<u8> = Vec::new();
    encode_i64(&mut out, v.view.sx);
    encode_i64(&mut out, v.view.sy);
    encode_i64(&mut out, v.view.tx);
    encode_i64(&mut out, v.view.ty);
    out.push(v.selected.to_byte());
    let mut body = encode_field(&v.field);
    let ghost head = out@;
    let ghost fieldbytes = body@;
    out.append(&mut body);
    proof {
        assert(out@ == head + fieldbytes);
        assert forall|x: int, y: int| v.field.spec_in_bounds(x, y) implies
            #[trigger] payload_at(out@, 33, v.field.spec_width(), x, y)
                == v.field.cell(x, y).kind.ordinal() by {
            lemma_flat_index_bound(
                v.field.spec_width(),
                v.field.spec_height(),
                x,
                y,
            );
            assert(payload_at(fieldbytes, 0, v.field.spec_width(), x, y)
                == v.field.cell(x, y).kind.ordinal());
        }
        v.selected.lemma_ordinal_bijective();
        lemma_view_encoding_valid(out@, *v);
    }
    out
}

/// Decodes an editor state. Exactly the valid encodings are accepted, and
/// the result is well formed and carries the encoded state.
pub fn decode_view(bytes: &Vec<u8>) -> (r: Result<EditorView, DecodeError>)
    ensures
        r is Ok <==> is_valid_view_encoding(bytes@),
        r matches Ok(v) ==> v.wf() && is_view_encoding_of(bytes@, v),
        bytes@.len() < 33 ==> r == Err::<EditorView, DecodeError>(DecodeError::TooShort),
{
    if bytes.len() < 33 {
        return Err(DecodeError::TooShort);
    }
    let sx = decode_i64_at(bytes, 0);
    let sy = decode_i64_at(bytes, 8);
    let tx = decode_i64_at(bytes, 16);
    let ty = decode_i64_at(bytes, 24);
    if !(0 < sx && sx <= MAX_ZOOM && 0 < sy && sy <= MAX_ZOOM) {
        return Err(DecodeError::BadTransform);
    }
    if !(-TRANS_LIMIT <= tx && tx <= TRANS_LIMIT && -TRANS_LIMIT <= ty && ty <= TRANS_LIMIT) {
        return Err(DecodeError::BadTransform);
    }
    let selected = match PanelKind::try_from_byte(bytes[32]) {
        Some(kind) => kind,
        None => {
            return Err(DecodeError::BadKind);
        }
    };
    let field = match decode_field_at(bytes, 33) {
        Ok(field) => field,
        Err(e) => {
            return Err(e);
        }
    };
    proof {
        selected.lemma_ordinal_bijective();
    }
    Ok(EditorView {
        view: Transform { sx, sy, tx, ty },
        field,
        selected,
    })
}

/// An encoding determines the editor state: two states with the same
/// encoding agree on the transform, the selected kind, the board's
/// dimensions and every cell.
pub proof fn lemma_view_codec_lossless(s: Seq<u8>, v: EditorView, g: EditorView)
    requires
        v.wf(),
        g.wf(),
        is_view_encoding_of(s, v),
        is_view_encoding_of(s, g),
    ensures
        g.view == v.view,
        g.selected == v.selected,
        g.field.spec_width() == v.field.spec_width(),
        g.field.spec_height() == v.field.spec_height(),
        forall|x: int, y: int| v.field.spec_in_bounds(x, y) ==>
            #[trigger] g.field.cell(x, y) == v.field.cell(x, y),
{
    v.selected.lemma_ordinal_bijective();
    g.selected.lemma_ordinal_bijective();
    lemma_field_codec_lossless(s, 33, v.field, g.field);
}

/// A well-formed state's encoding is valid: the decoder accepts it.
pub proof fn lemma_view_encoding_valid(s: Seq<u8>, v: EditorView)
    requires
        v.wf(),
        is_view_encoding_of(s, v),
    ensures
        is_valid_view_encoding(s),
{
    v.selected.lemma_ordinal_bijective();
    lemma_field_encoding_valid(s, 33, v.field);
}

/// A well-formed board's encoding is valid: the decoder accepts it.
pub proof fn lemma_field_encoding_valid(s: Seq<u8>, off: int, f: Field)
    requires
        f.wf(),
        is_field_encoding_of(s, off, f),
    ensures
        is_valid_field_encoding(s, off),
{
    assert forall|x: int, y: int|
        0 <= x < enc_w(s, off) && 0 <= y < enc_h(s, off) implies
        (#[trigger] payload_at(s, off, enc_w(s, off), x, y)) < KIND_COUNT by {
        assert(payload_at(s, off, f.spec_width(), x, y) == f.cell(x, y).kind.ordinal());
        f.cell(x, y).kind.lemma_ordinal_bijective();
    }
}

} // verus!
