use base64::Engine;
use league_of_legends::image::{Base64Image, ImageError, UploadImageOptions, UploadedImage};
use league_of_legends::passport::{Claims, Passport};
use league_of_legends::signing::{hex_of, sign_upload, signature_for, signing_params};

fn encode(bytes: &[u8]) -> String {
    base64::engine::general_purpose::STANDARD.encode(bytes)
}

#[test]
fn png_submission_becomes_a_data_url() {
    let png = [0x89u8, 0x50, 0x4E, 0x47, 0x0D, 0x0A, 0x1A, 0x0A, 0, 0, 0, 0];
    let data = encode(&png);
    assert_eq!(data, "iVBORw0KGgoAAAAA".to_string());
    let image = Base64Image::new(data.clone()).expect("png is accepted");
    assert_eq!(image.into_inner(), format!("data:image/png;base64,{}", data));
}

#[test]
fn jpeg_submission_becomes_a_data_url() {
    let jpg = [0xFFu8, 0xD8, 0xFF, 0xE0, 0, 0, 0, 0];
    let data = encode(&jpg);
    let image = Base64Image::new(data.clone()).expect("jpeg is accepted");
    assert_eq!(image.into_inner(), format!("data:image/jpeg;base64,{}", data));
}

#[test]
fn image_submissions_are_validated() {
    assert!(matches!(Base64Image::new("".to_string()), Err(ImageError::EmptyData)));
    assert!(matches!(
        Base64Image::new("!!!not base64!!!".to_string()),
        Err(ImageError::InvalidData)
    ));
    let text = encode(b"hello world this is text");
    assert!(matches!(Base64Image::new(text), Err(ImageError::UnsupportedType)));
}

#[test]
fn uploaded_image_keeps_its_fields() {
    let img = UploadedImage::new("https://host/x.png".to_string(), "x".to_string());
    assert_eq!(img.url, "https://host/x.png".to_string());
    assert_eq!(img.public_id, "x".to_string());
}

#[test]
fn hex_rendering_is_lowercase_two_digits_per_byte() {
    assert_eq!(hex_of(&vec![]), "".to_string());
    assert_eq!(hex_of(&vec![0xBE, 0xEF]), "beef".to_string());
    assert_eq!(hex_of(&vec![0x00, 0x0A, 0xFF]), "000aff".to_string());
}

#[test]
fn signing_params_are_in_lexicographic_order() {
    let params = signing_params(
        "1700000000".to_string(),
        Some("brawlers_avatar".to_string()),
        Some("7".to_string()),
        Some("c_scale, w_256".to_string()),
    );
    let names: Vec<String> = params.iter().map(|p| p.0.clone()).collect();
    assert_eq!(
        names,
        vec![
            "folder".to_string(),
            "public_id".to_string(),
            "timestamp".to_string(),
            "transformation".to_string()
        ]
    );

    let bare = signing_params("123".to_string(), None, None, None);
    assert_eq!(bare.len(), 1);
    assert_eq!(bare[0].0, "timestamp".to_string());
    assert_eq!(bare[0].1, "123".to_string());
}

#[test]
fn upload_signature_matches_sha1_of_the_payload() {
    let options = UploadImageOptions {
        folder: Some("brawlers_avatar".to_string()),
        public_id: Some("7".to_string()),
        transformation: Some("c_scale, w_256".to_string()),
    };
    let signed = sign_upload(options, "1700000000".to_string(), "s3cr3t");
    assert_eq!(signed.params.len(), 4);
    assert_eq!(signed.signature, "e275ec632c301fda82d8b0fb2253509b498fed2f".to_string());

    let minimal = signing_params("1700000000".to_string(), None, None, None);
    assert_eq!(
        signature_for(&minimal, "s3cr3t"),
        "e69cb2b2e77705e7823c54fe3517765a64289923".to_string()
    );
}

#[test]
fn claims_and_passport_carry_the_expiry() {
    let now = 1_700_000_000;
    let claims = Claims::for_brawler(42, now, 7);
    assert_eq!(claims.sub, "42".to_string());
    assert_eq!(claims.iat as i64, now);
    assert_eq!(claims.exp as i64, now + 7 * 86400);

    let passport = Passport::new(
        "Teemo".to_string(),
        Some("https://host/a.png".to_string()),
        "token-bytes".to_string(),
        now,
        7,
    );
    assert_eq!(passport.token_type, "Bearer".to_string());
    assert_eq!(passport.access_token, "token-bytes".to_string());
    assert_eq!(passport.expires_in as i64, now + 7 * 86400);
    assert_eq!(passport.display_name, "Teemo".to_string());
    assert_eq!(passport.avatar_url, Some("https://host/a.png".to_string()));
}
