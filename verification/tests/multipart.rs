use bentoml::error::Error;
use bentoml::multipart::{Multipart, Part};

#[test]
fn a_valid_body_builds() {
    let body = Multipart::new()
        .field("prompt", Ok("\"a bento box\"".to_string()))
        .part(
            "image",
            Part::new(vec![1, 2, 3]).with_file_name("image.jpg").with_mime("image/jpeg"),
        );
    assert!(body.into_form().is_ok());
}

#[test]
fn a_field_that_failed_to_encode_is_reported() {
    let body = Multipart::new()
        .field("size", Err("key must be a string".to_string()))
        .field("later", Err("ignored".to_string()));
    match body.into_form() {
        Err(Error::InvalidRequest { message, source: None }) => assert_eq!(
            message,
            "invalid multipart body: field \"size\": key must be a string"
        ),
        other => panic!("unexpected {:?}", other.map(|_| ())),
    }
}

#[test]
fn the_first_invalid_mime_is_reported() {
    let body = Multipart::new()
        .part("a", Part::new(vec![]).with_mime("text/plain"))
        .part("b", Part::new(vec![]).with_mime("not a mime"))
        .part("c", Part::new(vec![]).with_mime("also bad"));
    match body.into_form() {
        Err(Error::InvalidRequest { message, source: Some(source) }) => {
            assert_eq!(message, "invalid part mime \"not a mime\"");
            assert_eq!(source, "builder error");
        }
        other => panic!("unexpected {:?}", other.map(|_| ())),
    }
}

#[test]
fn the_form_holds_the_fields_then_the_parts_in_order() {
    let body = Multipart::new()
        .part("image", Part::new(vec![1, 2, 3]).with_file_name("image.jpg").with_mime("Image/JPEG"))
        .field("prompt", Ok("\"a bento box\"".to_string()))
        .field("size", Ok("3".to_string()));
    let form = format!("{:?}", body.into_form().unwrap());
    let prompt = form.find("\"prompt\"").unwrap();
    let size = form.find("\"size\"").unwrap();
    let image = form.find("\"image\"").unwrap();
    assert!(prompt < size && size < image, "unexpected field order in {form}");
    assert!(form.contains("image.jpg"), "the file name is kept: {form}");
    assert!(form.contains("image/jpeg"), "the MIME type is parsed: {form}");
}
