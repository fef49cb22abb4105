//! The screenshot analysis pipeline: validate the raw RGBA buffer and
//! repack its rows to drop any stride padding, content-address the
//! pixels, deduplicate against the outbox by that hash, encode the
//! image, and store the record.  Writing the encoded bytes to disk is
//! the caller's concern; the record already carries the path they
//! belong at.

use vstd::prelude::*;
use vstd::arithmetic::div_mod::lemma_fundamental_div_mod_converse;
use vstd::string::StringExecFns;

use std::io::Cursor;

use crate::hashing::{spec_sha256_hex, sha256_hex};
use crate::outbox::{Outbox, spec_has_hash};
use crate::records::{DeviceInfo, ScreenshotLog};
use crate::text::{spec_string_bytes, subvec, append_bytes};

verus! {

/// Whether a raw buffer can hold a `width` by `height` RGBA image:
/// four bytes per pixel, with a whole number of bytes per row (the
/// row stride may exceed the pixel data).
pub open spec fn spec_valid_image(data: Seq<u8>, width: int, height: int) -> bool {
    &&& width > 0
    &&& height > 0
    &&& data.len() >= 4 * width * height
    &&& data.len() as int % height == 0
}

/// The pixel bytes of `rows` rows, each `expected` bytes taken from
/// the start of a `stride`-byte row of `data`.
pub open spec fn spec_packed_rows(data: Seq<u8>, stride: int, expected: int, rows: int) -> Seq<
    u8,
> {
    Seq::new((rows * expected) as nat, |i: int| data[(i / expected) * stride + i % expected])
}

/// The packed pixel bytes of a valid image buffer.
pub open spec fn spec_pixels(data: Seq<u8>, width: int, height: int) -> Seq<u8> {
    spec_packed_rows(data, data.len() as int / height, 4 * width, height)
}

/// Validate an RGBA buffer and drop the stride padding: the result
/// holds exactly the `4 * width` leading bytes of each of the
/// `height` rows.
#[verifier::loop_isolation(false)]
pub fn pack_rows(data: &[u8], width: u32, height: u32) -> (r: Option<Vec<u8>>)
    ensures
        r is Some <==> spec_valid_image(data@, width as int, height as int),
        r matches Some(p) ==> p@ == spec_pixels(data@, width as int, height as int) && p@.len()
            == 4 * width * height,
{
    if width == 0 || height == 0 {
        return None;
    }
    let expected_wide: u128 = 4u128 * (width as u128);
    proof {
        assert(expected_wide * (height as u128) < 0x10000000000000000000u128)
            by (nonlinear_arith)
            requires
                expected_wide < 0x500000000u128,
                (height as u128) < 0x100000000u128,
        ;
    }
    let total_wide: u128 = expected_wide * (height as u128);
    proof {
        assert(total_wide == 4 * (width as int) * (height as int)) by (nonlinear_arith)
            requires
                total_wide == expected_wide * (height as u128),
                expected_wide == 4 * (width as u128),
        ;
    }
    if (data.len() as u128) < total_wide {
        return None;
    }
    if data.len() % (height as usize) != 0 {
        return None;
    }
    proof {
        assert(expected_wide <= data@.len()) by (nonlinear_arith)
            requires
                expected_wide * (height as u128) <= data@.len(),
                (height as u128) >= 1,
                expected_wide >= 0,
        ;
    }
    let expected: usize = expected_wide as usize;
    let stride: usize = data.len() / (height as usize);
    proof {
        vstd::arithmetic::div_mod::lemma_fundamental_div_mod(
            data@.len() as int,
            height as int,
        );
        assert(stride * (height as int) == data@.len()) by (nonlinear_arith)
            requires
                data@.len() == (height as int) * (data@.len() as int / (height as int)) + (
                data@.len() as int % (height as int)),
                data@.len() as int % (height as int) == 0,
                stride == data@.len() as int / (height as int),
        ;
        assert(data@.len() >= (expected as int) * (height as int)) by (nonlinear_arith)
            requires
                data@.len() >= 4 * (width as int) * (height as int),
                expected == 4 * (width as int),
        ;
        assert(expected <= stride) by (nonlinear_arith)
            requires
                stride * (height as int) == data@.len(),
                data@.len() >= (expected as int) * (height as int),
                (height as int) >= 1,
                stride >= 0,
                expected >= 0,
        ;
    }
    let mut packed: Vec<u8> = Vec::new();
    let mut row: usize = 0;
    while row < height as usize
        invariant
            0 <= row <= height,
            packed@ == spec_packed_rows(data@, stride as int, expected as int, row as int),
            packed@.len() == row * expected,
        decreases height - row,
    {
        proof {
            assert((row + 1) * stride <= (height as int) * stride) by (nonlinear_arith)
                requires
                    row + 1 <= height as int,
                    stride >= 0,
            ;
            assert(row * stride + expected <= (row + 1) * stride) by (nonlinear_arith)
                requires
                    expected <= stride,
                    row >= 0,
            ;
        }
        let start = row * stride;
        let seg = subvec(data, start, start + expected);
        append_bytes(&mut packed, seg.as_slice());
        proof {
            let before = spec_packed_rows(data@, stride as int, expected as int, row as int);
            let seg = data@.subrange(start as int, start + expected as int);
            let now = spec_packed_rows(data@, stride as int, expected as int, row + 1);
            assert((row + 1) * (expected as int) == row * (expected as int) + expected)
                by (nonlinear_arith);
            assert forall|i: int| 0 <= i < now.len() implies #[trigger] now[i] == (before
                + seg)[i] by {
                if i >= row * (expected as int) {
                    lemma_fundamental_div_mod_converse(
                        i,
                        expected as int,
                        row as int,
                        i - row * (expected as int),
                    );
                }
            }
            assert(now =~= before + seg);
        }
        row = row + 1;
    }
    proof {
        assert((height as int) * (expected as int) == 4 * (width as int) * (height as int))
            by (nonlinear_arith)
            requires
                expected == 4 * (width as int),
        ;
    }
    Some(packed)
}

/// What the JPEG encoder produces for given pixels and dimensions.
pub uninterp spec fn jpeg_encoding_of(pixels: Seq<u8>, width: int, height: int) -> Seq<u8>;

/// The largest width or height the JPEG format can carry (a 16-bit
/// field in the frame header).
pub const JPEG_MAX_DIMENSION: u32 = 65535;

/// Relies on `image::RgbaImage::from_raw` and
/// `image::DynamicImage::write_to` with the JPEG format: the encoding
/// depends on the pixels and dimensions alone, and it succeeds for
/// every in-range frame — the encoder rejects only dimensions beyond
/// the format's 16-bit limit, and the sink here is an in-memory
/// buffer, so writing cannot fail.
#[verifier::external_body]
fn encode_jpeg(pixels: &[u8], width: u32, height: u32) -> (r: Option<Vec<u8>>)
    requires
        pixels@.len() == 4 * width * height,
        width > 0,
        height > 0,
    ensures
        r matches Some(j) ==> j@ == jpeg_encoding_of(pixels@, width as int, height as int),
        width <= JPEG_MAX_DIMENSION && height <= JPEG_MAX_DIMENSION ==> r is Some,
{
    let img = image::RgbaImage::from_raw(width, height, pixels.to_vec())?;
    let dynamic = image::DynamicImage::ImageRgba8(img);
    let mut out: Vec<u8> = Vec::new();
    dynamic.write_to(&mut Cursor::new(&mut out), image::ImageFormat::Jpeg).ok()?;
    Some(out)
}

/// Analyse one captured frame: repack and validate it, hash the
/// pixels, skip it entirely when a screenshot with the same hash is
/// already stored, otherwise encode it as JPEG, store the record
/// (unsent, risk raised when the capture was flagged sensitive), and
/// hand back the file path and the encoded bytes for the caller to
/// write.
pub fn analyze_screenshot(
    outbox: &mut Outbox,
    data: &[u8],
    width: u32,
    height: u32,
    app_name: &str,
    is_sensitive: bool,
    ocr_text: Option<String>,
    device: &DeviceInfo,
    capture_time: &str,
    screenshot_dir: &str,
) -> (r: Option<(String, Vec<u8>)>)
    requires
        old(outbox).next_row_id < i64::MAX,
    ensures
        !spec_valid_image(data@, width as int, height as int) ==> r is None && *final(outbox)
            == *old(outbox),
        spec_valid_image(data@, width as int, height as int) && spec_has_hash(
            old(outbox).screenshot@,
            spec_string_bytes(spec_sha256_hex(spec_pixels(data@, width as int, height as int))),
        ) ==> r is None && *final(outbox) == *old(outbox),
        r is None ==> *final(outbox) == *old(outbox),
        (spec_valid_image(data@, width as int, height as int) && !spec_has_hash(
            old(outbox).screenshot@,
            spec_string_bytes(spec_sha256_hex(spec_pixels(data@, width as int, height as int))),
        ) && width <= JPEG_MAX_DIMENSION && height <= JPEG_MAX_DIMENSION) ==> r is Some,
        r matches Some(pr) ==> {
            let pixels = spec_pixels(data@, width as int, height as int);
            let hash = spec_sha256_hex(pixels);
            &&& spec_valid_image(data@, width as int, height as int)
            &&& !spec_has_hash(old(outbox).screenshot@, spec_string_bytes(hash))
            &&& pr.0@ == screenshot_dir@ + "/"@ + hash + ".jpg"@
            &&& pr.1@ == jpeg_encoding_of(pixels, width as int, height as int)
            &&& final(outbox).screenshot@.len() == old(outbox).screenshot@.len() + 1
            &&& final(outbox).screenshot@.take(old(outbox).screenshot@.len() as int) == old(
                outbox,
            ).screenshot@
            &&& !final(outbox).screenshot@.last().is_uploaded
            &&& final(outbox).screenshot@.last().rec.image_hash@ == hash
            &&& final(outbox).screenshot@.last().rec.image_path@ == pr.0@
            &&& final(outbox).screenshot@.last().rec.capture_time@ == capture_time@
            &&& final(outbox).screenshot@.last().rec.app_name@ == app_name@
            &&& final(outbox).screenshot@.last().rec.ocr_text == ocr_text
            &&& final(outbox).screenshot@.last().rec.risk_level == (if is_sensitive {
                1int
            } else {
                0int
            })
            &&& final(outbox).screenshot@.last().rec.id == Some(old(outbox).next_row_id)
            &&& final(outbox).screenshot@.last().rec.cpe_id@ == device.cpe_id@
            &&& final(outbox).screenshot@.last().rec.host_id@ == device.host_id@
            &&& final(outbox).screenshot@.last().rec.mac@ == device.mac@
            &&& final(outbox).screenshot@.last().rec.ip@ == device.ip@
            &&& final(outbox).screenshot@.last().rec.redaction_labels is None
            &&& final(outbox).next_row_id == old(outbox).next_row_id + 1
            &&& final(outbox).audit@ == old(outbox).audit@
            &&& final(outbox).behavior@ == old(outbox).behavior@
            &&& final(outbox).clipboard@ == old(outbox).clipboard@
        },
{
    let packed = match pack_rows(data, width, height) {
        Some(p) => p,
        None => {
            return None;
        },
    };
    let hash = sha256_hex(packed.as_slice());
    if outbox.check_screenshot_exists(hash.as_str()) {
        return None;
    }
    let jpeg = match encode_jpeg(packed.as_slice(), width, height) {
        Some(j) => j,
        None => {
            return None;
        },
    };
    let mut path = screenshot_dir.to_owned();
    path.append("/");
    path.append(hash.as_str());
    path.append(".jpg");
    let record = ScreenshotLog {
        id: None,
        capture_time: capture_time.to_owned(),
        cpe_id: device.cpe_id.clone(),
        image_path: path.clone(),
        ocr_text,
        risk_level: if is_sensitive {
            1
        } else {
            0
        },
        app_name: app_name.to_owned(),
        image_hash: hash,
        host_id: device.host_id.clone(),
        mac: device.mac.clone(),
        ip: device.ip.clone(),
        redaction_labels: None,
    };
    outbox.save_screenshot_log(record);
    Some((path, jpeg))
}

} // verus!
