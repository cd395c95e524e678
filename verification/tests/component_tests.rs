//! The components around the engine: the request-deduplication guard, the
//! session update authorization, the image optimizer decisions, the data
//! URL builder, and the small helpers.

use split_bills::dataurl::image_data_url;
use split_bills::guard::{GuardOutcome, RequestGuard};
use split_bills::health_check;
use split_bills::imaging::{image_kind_for, optimize_image, ImageKind};
use split_bills::models::{default_quantity, CalculateRequest, Person, LINE_LIMIT};
use split_bills::session::{authorize_update, UpdateOutcome};

fn plain_person(name: &str, amount: i128) -> Person {
    Person {
        id: 0,
        name: name.to_string(),
        description: String::new(),
        amount_spent: amount,
        quantity: default_quantity(),
        tip: 0,
        is_sponsor: false,
        sponsor_amount: 0,
        is_receiver: false,
        paid_by: None,
    }
}

#[test]
fn guard_accepts_then_rejects_duplicate() {
    let mut guard = RequestGuard::new();
    let r1 = guard.check_and_register("req-1".to_string(), 1_000, 300);
    assert_eq!(r1, GuardOutcome::Accepted);
    let r2 = guard.check_and_register("req-1".to_string(), 1_100, 300);
    assert_eq!(r2, GuardOutcome::Duplicate);
    let r3 = guard.check_and_register("req-2".to_string(), 1_100, 300);
    assert_eq!(r3, GuardOutcome::Accepted);
}

#[test]
fn guard_forgets_expired_entries() {
    let mut guard = RequestGuard::new();
    assert_eq!(
        guard.check_and_register("req-1".to_string(), 1_000, 300),
        GuardOutcome::Accepted
    );
    // 400 seconds later the entry has aged out of the 300-second window.
    assert_eq!(
        guard.check_and_register("req-1".to_string(), 1_400, 300),
        GuardOutcome::Accepted
    );
}

#[test]
fn update_requires_a_secret() {
    let stored = "edit-key-1".to_string();
    assert_eq!(authorize_update(Some(&stored), None), UpdateOutcome::Forbidden);
}

#[test]
fn update_of_missing_session_is_not_found() {
    let presented = "edit-key-1".to_string();
    assert_eq!(authorize_update(None, Some(&presented)), UpdateOutcome::NotFound);
}

#[test]
fn update_with_matching_secret_proceeds() {
    let stored = "s-123".to_string();
    let presented = "s-123".to_string();
    assert_eq!(
        authorize_update(Some(&stored), Some(&presented)),
        UpdateOutcome::Updated
    );
    let wrong = "s-124".to_string();
    assert_eq!(
        authorize_update(Some(&stored), Some(&wrong)),
        UpdateOutcome::Forbidden
    );
}

#[test]
fn small_image_passes_through() {
    let data = vec![7u8; 1024];
    let out = optimize_image(&data, "image/png").unwrap();
    assert_eq!(out.0, data);
    assert_eq!(out.1, "image/png");
}

#[test]
fn unrecognizable_large_image_is_an_error() {
    // 300 KiB of zeros: over the limit and no decodable format.
    let data = vec![0u8; 300 * 1024];
    assert!(optimize_image(&data, "application/octet-stream").is_err());
}

#[test]
fn large_png_is_reencoded_as_jpeg() {
    // A real 1-pixel PNG padded far past the size limit with ancillary data.
    let mut data = png_pixel();
    while data.len() <= 204_800 {
        let filler = vec![0u8; 60_000];
        data = insert_ancillary_chunk(&data, &filler);
    }
    let out = optimize_image(&data, "image/png").unwrap();
    assert_eq!(out.1, "image/jpeg");
    assert!(!out.0.is_empty());
}

/// A minimal single-pixel PNG, byte by byte.
fn png_pixel() -> Vec<u8> {
    let mut png: Vec<u8> = vec![0x89, b'P', b'N', b'G', 0x0d, 0x0a, 0x1a, 0x0a];
    let ihdr = [0u8, 0, 0, 1, 0, 0, 0, 1, 8, 0, 0, 0, 0];
    push_chunk(&mut png, b"IHDR", &ihdr);
    // One grayscale pixel, deflate "stored" block.
    let idat = [
        0x78u8, 0x01, 0x01, 0x02, 0x00, 0xfd, 0xff, 0x00, 0x00, 0x00, 0x02, 0x00, 0x01,
    ];
    push_chunk(&mut png, b"IDAT", &idat);
    push_chunk(&mut png, b"IEND", &[]);
    png
}

/// Re-emits a PNG with one private ancillary chunk inserted before IEND.
fn insert_ancillary_chunk(png: &[u8], payload: &[u8]) -> Vec<u8> {
    let iend_start = png.len() - 12;
    let mut out = png[..iend_start].to_vec();
    push_chunk(&mut out, b"prVt", payload);
    out.extend_from_slice(&png[iend_start..]);
    out
}

fn push_chunk(out: &mut Vec<u8>, kind: &[u8; 4], payload: &[u8]) {
    out.extend_from_slice(&(payload.len() as u32).to_be_bytes());
    out.extend_from_slice(kind);
    out.extend_from_slice(payload);
    let mut crc_input = Vec::new();
    crc_input.extend_from_slice(kind);
    crc_input.extend_from_slice(payload);
    out.extend_from_slice(&crc32(&crc_input).to_be_bytes());
}

/// CRC-32 as PNG uses it.
fn crc32(data: &[u8]) -> u32 {
    let mut crc: u32 = 0xffff_ffff;
    for &b in data {
        crc ^= b as u32;
        for _ in 0..8 {
            if crc & 1 != 0 {
                crc = (crc >> 1) ^ 0xedb8_8320;
            } else {
                crc >>= 1;
            }
        }
    }
    !crc
}

#[test]
fn content_type_recognition() {
    assert_eq!(image_kind_for("image/png"), Some(ImageKind::Png));
    assert_eq!(image_kind_for("image/jpeg"), Some(ImageKind::Jpeg));
    assert_eq!(image_kind_for("image/jpg"), Some(ImageKind::Jpeg));
    assert_eq!(image_kind_for("image/webp"), Some(ImageKind::WebP));
    assert_eq!(image_kind_for("image/gif"), Some(ImageKind::Gif));
    assert_eq!(image_kind_for("text/plain"), None);
}

#[test]
fn data_url_embeds_base64_payload() {
    let url = image_data_url(&[1u8, 2, 3], "image/png");
    assert_eq!(url, "data:image/png;base64,AQID");
    let empty = image_data_url(&[], "image/jpeg");
    assert_eq!(empty, "data:image/jpeg;base64,");
}

#[test]
fn request_bounds_are_checked() {
    let ok = CalculateRequest {
        people: vec![plain_person("Ana", 100)],
        include_sponsor: false,
        restrict_sponsor_to_spent: None,
        fund_amount: 0,
        tip_percentage: 0,
    };
    assert!(ok.is_valid());

    let negative_tip = CalculateRequest {
        people: vec![plain_person("Ana", 100)],
        include_sponsor: false,
        restrict_sponsor_to_spent: None,
        fund_amount: 0,
        tip_percentage: -1,
    };
    assert!(!negative_tip.is_valid());

    let oversized_line = CalculateRequest {
        people: vec![plain_person("Ana", 2_000_000_000_000)],
        include_sponsor: false,
        restrict_sponsor_to_spent: None,
        fund_amount: 0,
        tip_percentage: 0,
    };
    assert!(!oversized_line.is_valid());
}

#[test]
fn helpers_answer_plainly() {
    assert!(health_check());
    assert_eq!(default_quantity(), 1);
    assert!(LINE_LIMIT >= 1);
}
