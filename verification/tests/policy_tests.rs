use imgdup::distance::hamming_distance;
use imgdup::extract::extract;
use imgdup::index::DuplicateIndex;
use imgdup::index::IndexError;
use imgdup::policy::compare_against;
use imgdup::policy::ingest;
use imgdup::policy::is_image_attachment;
use imgdup::policy::Attachment;
use imgdup::policy::CompareOutcome;
use imgdup::policy::IngestOutcome;
use imgdup::policy::MimeClass;

/// Builds a 9x8 grayscale PNG whose default (8x8 gradient) perceptual hash
/// realises `pattern`: bit `k` of the pattern decides whether, in row `k / 8`,
/// pixel `k % 8 + 1` is brighter than pixel `k % 8`. Two images built from
/// patterns that differ in `d` bits therefore lie at Hamming distance `d`.
fn craft_image(pattern: u64) -> Vec<u8> {
    let mut img = image::GrayImage::new(9, 8);
    for row in 0..8u32 {
        let mut v: i32 = 128;
        img.put_pixel(0, row, image::Luma([v as u8]));
        for x in 0..8u32 {
            let k = row * 8 + x;
            let bit = (pattern >> k) & 1 == 1;
            v = if bit { v + 14 } else { v - 14 };
            img.put_pixel(x + 1, row, image::Luma([v as u8]));
        }
    }
    let mut bytes: Vec<u8> = Vec::new();
    image::DynamicImage::ImageLuma8(img)
        .write_to(&mut bytes, image::ImageOutputFormat::Png)
        .unwrap();
    bytes
}

fn photo_a() -> Vec<u8> {
    craft_image(0xaaaa_aaaa_aaaa_aaaa)
}

/// Differs from `photo_a`'s pattern in exactly 12 bit positions.
fn photo_b() -> Vec<u8> {
    craft_image(0xaaaa_aaaa_aaaa_a555)
}

#[test]
fn extraction_is_deterministic() {
    let a = photo_a();
    assert_eq!(extract(&a), extract(&a));
    let h1 = extract(&a).unwrap();
    let h2 = extract(&photo_a()).unwrap();
    assert_eq!(h1, h2);
}

#[test]
fn crafted_images_lie_at_distance_twelve() {
    let ha = extract(&photo_a()).unwrap();
    let hb = extract(&photo_b()).unwrap();
    assert_eq!(hamming_distance(ha, hb), 12);
}

#[test]
fn non_image_bytes_are_classified_not_decoded() {
    assert!(extract(b"this is not an image at all").is_err());
    assert!(extract(&[]).is_err());
    // a PNG cut off after its signature
    assert!(extract(&[0x89, b'P', b'N', b'G', 0x0d, 0x0a, 0x1a, 0x0a]).is_err());
    // a valid PNG truncated halfway
    let a = photo_a();
    assert!(extract(&a[..a.len() / 2]).is_err());
}

#[test]
fn zero_dimension_images_are_not_decodable() {
    // a valid farbfeld header declaring a 0x0 image, and one declaring 1x0:
    // both decode, hold no pixels, and must classify as not-an-image rather
    // than reach the hasher.
    let mut zero_by_zero: Vec<u8> = b"farbfeld".to_vec();
    zero_by_zero.extend_from_slice(&[0, 0, 0, 0, 0, 0, 0, 0]);
    assert!(extract(&zero_by_zero).is_err());
    let mut one_by_zero: Vec<u8> = b"farbfeld".to_vec();
    one_by_zero.extend_from_slice(&[0, 0, 0, 1, 0, 0, 0, 0]);
    assert!(extract(&one_by_zero).is_err());
    let mut idx = DuplicateIndex::new();
    assert_eq!(ingest(&mut idx, 1, "room", 1, &zero_by_zero, 10), Ok(IngestOutcome::NotAnImage));
    assert_eq!(compare_against(&idx, 1, &one_by_zero, 1), CompareOutcome::NoImage);
}

#[test]
fn ingest_of_non_image_touches_nothing() {
    let mut idx = DuplicateIndex::new();
    let r = ingest(&mut idx, 1, "room", 1, b"not an image", 10);
    assert_eq!(r, Ok(IngestOutcome::NotAnImage));
    assert_eq!(idx.record_count(), 0);
    assert_eq!(idx.get_label(1), None);
}

#[test]
fn ingest_records_then_flags_duplicate() {
    let mut idx = DuplicateIndex::new();
    let a = photo_a();
    assert_eq!(ingest(&mut idx, 1, "room", 1, &a, 10), Ok(IngestOutcome::Recorded));
    assert_eq!(ingest(&mut idx, 1, "room", 2, &a, 10), Ok(IngestOutcome::Duplicate(1, 0)));
    assert_eq!(idx.record_count(), 1);
}

#[test]
fn ingest_over_threshold_records_anew() {
    let mut idx = DuplicateIndex::new();
    assert_eq!(ingest(&mut idx, 1, "room", 1, &photo_a(), 10), Ok(IngestOutcome::Recorded));
    // photo B lies at distance 12, beyond the threshold of 10.
    assert_eq!(ingest(&mut idx, 1, "room", 2, &photo_b(), 10), Ok(IngestOutcome::Recorded));
    assert_eq!(idx.record_count(), 2);
}

#[test]
fn ingest_within_threshold_flags_duplicate() {
    let mut idx = DuplicateIndex::new();
    assert_eq!(ingest(&mut idx, 1, "room", 1, &photo_a(), 15), Ok(IngestOutcome::Recorded));
    // distance 12 lies within the threshold of 15.
    assert_eq!(ingest(&mut idx, 1, "room", 2, &photo_b(), 15), Ok(IngestOutcome::Duplicate(1, 12)));
}

#[test]
fn ingest_rejects_invalid_threshold() {
    let mut idx = DuplicateIndex::new();
    assert_eq!(
        ingest(&mut idx, 1, "room", 1, &photo_a(), 65),
        Err(IndexError::InvalidThreshold)
    );
    assert_eq!(idx.record_count(), 0);
}

#[test]
fn ingest_rejects_reused_record_id() {
    let mut idx = DuplicateIndex::new();
    assert_eq!(ingest(&mut idx, 1, "room", 1, &photo_a(), 10), Ok(IngestOutcome::Recorded));
    assert_eq!(
        ingest(&mut idx, 1, "room", 1, &photo_b(), 10),
        Err(IndexError::DuplicateRecord)
    );
    assert_eq!(idx.record_count(), 1);
}

#[test]
fn ingest_isolates_partitions() {
    let mut idx = DuplicateIndex::new();
    let a = photo_a();
    assert_eq!(ingest(&mut idx, 1, "room a", 1, &a, 10), Ok(IngestOutcome::Recorded));
    // the identical image is new to another partition.
    assert_eq!(ingest(&mut idx, 2, "room b", 1, &a, 10), Ok(IngestOutcome::Recorded));
}

#[test]
fn compare_against_excluding_only_record() {
    let mut idx = DuplicateIndex::new();
    let a = photo_a();
    assert_eq!(ingest(&mut idx, 1, "room", 1, &a, 10), Ok(IngestOutcome::Recorded));
    assert_eq!(compare_against(&idx, 1, &a, 1), CompareOutcome::NoPriorRecords);
}

#[test]
fn compare_against_reports_the_nearest() {
    let mut idx = DuplicateIndex::new();
    assert_eq!(ingest(&mut idx, 1, "room", 1, &photo_a(), 10), Ok(IngestOutcome::Recorded));
    // excluding an unrelated id, record 1 is found at any distance.
    assert_eq!(compare_against(&idx, 1, &photo_b(), 99), CompareOutcome::Closest(1, 12));
    assert_eq!(compare_against(&idx, 1, &photo_a(), 99), CompareOutcome::Closest(1, 0));
}

#[test]
fn compare_against_non_image() {
    let idx = DuplicateIndex::new();
    assert_eq!(compare_against(&idx, 1, b"garbage", 1), CompareOutcome::NoImage);
}

#[test]
fn attachment_classification() {
    assert!(is_image_attachment(&Attachment::Photo));
    assert!(is_image_attachment(&Attachment::Document(Some(MimeClass::Image))));
    assert!(!is_image_attachment(&Attachment::Document(Some(MimeClass::Other))));
    assert!(!is_image_attachment(&Attachment::Document(None)));
    assert!(!is_image_attachment(&Attachment::NoAttachment));
}
