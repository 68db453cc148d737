use turbine::compat::{UploadPlan, UploadSecurityConfig};
use turbine::multipart::parse_multipart;

fn body(parts: &[(&str, Option<&str>, &[u8])]) -> Vec<u8> {
    let mut b: Vec<u8> = Vec::new();
    for (name, file, data) in parts {
        b.extend_from_slice(b"--XYZ\r\n");
        match file {
            Some(f) => b.extend_from_slice(
                format!("Content-Disposition: form-data; name=\"{name}\"; filename=\"{f}\"\r\nContent-Type: image/png\r\n\r\n")
                    .as_bytes(),
            ),
            None => b.extend_from_slice(format!("Content-Disposition: form-data; name=\"{name}\"\r\n\r\n").as_bytes()),
        }
        b.extend_from_slice(data);
        b.extend_from_slice(b"\r\n");
    }
    b.extend_from_slice(b"--XYZ--\r\n");
    b
}

#[test]
fn multipart_fields_and_files_are_planned_in_order() {
    let b = body(&[
        ("title", None, b"hello"),
        ("avatar", Some("photo.jpg"), b"\x89PNG clean"),
        ("doc", Some("shell.php"), b"x"),
        ("pic", Some("avatar.php.jpg"), b"x"),
        ("img", Some("evil.png"), b"GIF89a <?php system($_GET['c']); ?>"),
        ("second", Some("b.png"), b"ok"),
    ]);
    let sec = UploadSecurityConfig::default();
    let (parts, plans) = parse_multipart("multipart/form-data; boundary=XYZ", &b, "/tmp", &sec, 7);
    assert_eq!(parts.len(), 6);
    assert_eq!(plans.len(), 6);
    assert_eq!(parts[0].name, "title");
    assert!(matches!(&plans[0], UploadPlan::TextField { name, value } if name == "title" && value == "hello"));
    assert!(matches!(&plans[1], UploadPlan::Store { tmp_path, content_type }
        if tmp_path == "/tmp/turbine_upload_7_0" && content_type == "image/png"));
    assert_eq!(parts[1].data, b"\x89PNG clean".to_vec());
    assert!(matches!(plans[2], UploadPlan::BlockedExtension));
    assert!(matches!(plans[3], UploadPlan::BlockedExtension));
    assert!(matches!(plans[4], UploadPlan::BlockedContent));
    assert!(matches!(&plans[5], UploadPlan::Store { tmp_path, .. } if tmp_path == "/tmp/turbine_upload_7_1"));
}

#[test]
fn multipart_without_boundary_gives_nothing() {
    let sec = UploadSecurityConfig::default();
    let (parts, plans) = parse_multipart("text/plain", b"--XYZ\r\n", "/tmp", &sec, 1);
    assert!(parts.is_empty() && plans.is_empty());
}
