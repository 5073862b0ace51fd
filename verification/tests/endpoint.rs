use gopro_sync::endpoint::{delete_url, info_url, is_success, media_list_url, media_url};
use gopro_sync::format_req;

#[test]
fn format_req_prefixes_the_control_address() {
    assert_eq!(format_req("gpMediaList"), "http://10.5.5.9:8080/gp/gpMediaList");
    assert_eq!(format_req("gpControl/info"), "http://10.5.5.9:8080/gp/gpControl/info");
}

#[test]
fn format_req_of_nothing_is_the_bare_prefix() {
    assert_eq!(format_req(""), "http://10.5.5.9:8080/gp/");
}

#[test]
fn format_req_keeps_the_parameter_as_given() {
    assert_eq!(format_req("a b?c=d/e"), "http://10.5.5.9:8080/gp/a b?c=d/e");
    assert_eq!(format_req("/x"), "http://10.5.5.9:8080/gp//x");
}

#[test]
fn info_address() {
    assert_eq!(info_url(), "http://10.5.5.9:8080/gp/gpControl/info");
}

#[test]
fn media_list_address() {
    assert_eq!(media_list_url(), "http://10.5.5.9:8080/gp/gpMediaList");
}

#[test]
fn media_address_names_directory_and_file() {
    assert_eq!(
        media_url("100GOPRO", "GOPR0001.MP4"),
        "http://10.5.5.9:8080/videos/DCIM/100GOPRO/GOPR0001.MP4"
    );
}

#[test]
fn media_address_with_empty_parts() {
    assert_eq!(media_url("", ""), "http://10.5.5.9:8080/videos/DCIM//");
    assert_eq!(media_url("100GOPRO", ""), "http://10.5.5.9:8080/videos/DCIM/100GOPRO/");
}

#[test]
fn delete_address_carries_directory_slash_file() {
    assert_eq!(
        delete_url("100GOPRO", "GOPR0001.MP4"),
        "http://10.5.5.9:8080/gp/gpControl/command/storage/delete?p=100GOPRO/GOPR0001.MP4"
    );
}

#[test]
fn delete_address_is_a_control_request() {
    let command = "gpControl/command/storage/delete?p=101GOPRO/G0010002.JPG";
    assert_eq!(delete_url("101GOPRO", "G0010002.JPG"), format_req(command));
}

#[test]
fn only_the_two_hundreds_are_answers() {
    assert!(!is_success(0));
    assert!(!is_success(199));
    assert!(is_success(200));
    assert!(is_success(204));
    assert!(is_success(299));
    assert!(!is_success(300));
    assert!(!is_success(404));
    assert!(!is_success(500));
    assert!(!is_success(u16::MAX));
}

#[test]
fn agrees_with_the_status_classes_of_the_http_client() {
    for code in 100..1000u16 {
        let status = reqwest::StatusCode::from_u16(code).expect("status code");
        assert_eq!(is_success(code), status.is_success(), "{}", code);
    }
}
