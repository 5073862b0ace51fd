use gopro_sync::endpoint::media_url;
use gopro_sync::naming::local_file_name;

fn name_by_url_crate(address: &str) -> String {
    let url = reqwest::Url::parse(address).expect("address");
    let last = url.path_segments().and_then(|segments| segments.last());
    match last {
        Some(name) if !name.is_empty() => name.to_string(),
        _ => "tmp.bin".to_string(),
    }
}

fn name_by_library(address: &str) -> String {
    let url = reqwest::Url::parse(address).expect("address");
    local_file_name(url.path())
}

#[test]
fn last_segment_is_the_name() {
    assert_eq!(local_file_name("/videos/DCIM/100GOPRO/GOPR0001.MP4"), "GOPR0001.MP4");
    assert_eq!(local_file_name("/file.bin"), "file.bin");
    assert_eq!(local_file_name("/a/b"), "b");
}

#[test]
fn path_ending_in_a_slash_falls_back() {
    assert_eq!(local_file_name("/videos/DCIM/100GOPRO/"), "tmp.bin");
    assert_eq!(local_file_name("/a/"), "tmp.bin");
}

#[test]
fn root_path_falls_back() {
    assert_eq!(local_file_name("/"), "tmp.bin");
}

#[test]
fn empty_path_falls_back() {
    assert_eq!(local_file_name(""), "tmp.bin");
}

#[test]
fn path_without_leading_slash_has_no_segments() {
    assert_eq!(local_file_name("text/plain,HelloWorld"), "tmp.bin");
    assert_eq!(local_file_name("name.bin"), "tmp.bin");
    assert_eq!(local_file_name("a/b/c"), "tmp.bin");
}

#[test]
fn double_slash_before_the_name() {
    assert_eq!(local_file_name("//x"), "x");
    assert_eq!(local_file_name("/a//"), "tmp.bin");
}

#[test]
fn name_may_hold_any_other_character() {
    assert_eq!(local_file_name("/d/vi%E1%BB%87t%20nam"), "vi%E1%BB%87t%20nam");
    assert_eq!(local_file_name("/d/a b.c"), "a b.c");
    assert_eq!(local_file_name("/d/\u{00e9}t\u{00e9}.mp4"), "\u{00e9}t\u{00e9}.mp4");
}

#[test]
fn a_file_literally_named_like_the_fallback() {
    assert_eq!(local_file_name("/d/tmp.bin"), "tmp.bin");
}

#[test]
fn requested_address_keeps_the_listed_name() {
    let address = media_url("100GOPRO", "GOPR0001.MP4");
    assert_eq!(name_by_library(&address), "GOPR0001.MP4");
}

#[test]
fn agrees_with_the_segments_of_a_parsed_address() {
    let addresses = [
        "http://10.5.5.9:8080/videos/DCIM/100GOPRO/GOPR0001.MP4",
        "http://10.5.5.9:8080/videos/DCIM/100GOPRO/",
        "http://10.5.5.9:8080/videos/DCIM/100GOPRO",
        "http://10.5.5.9:8080/",
        "http://10.5.5.9:8080",
        "http://10.5.5.9:8080/a/b/../c.bin",
        "http://10.5.5.9:8080/a/./",
        "http://10.5.5.9:8080/x.bin?download=1#top",
        "http://10.5.5.9:8080/dir/?q=/name.bin",
        "http://10.5.5.9:8080/countries/vi\u{1ec7}t nam",
        "http://10.5.5.9:8080//double//slash",
        "data:text/plain,HelloWorld",
        "mailto:someone@example.com",
        "file:///tmp/clip.mp4",
    ];
    for address in addresses {
        assert_eq!(name_by_library(address), name_by_url_crate(address), "{}", address);
    }
}

#[test]
fn redirected_download_takes_the_name_of_the_final_address() {
    assert_eq!(name_by_library("http://10.5.5.9:8080/cache/0042.bin"), "0042.bin");
    assert_eq!(name_by_library("http://10.5.5.9:8080/cache/"), "tmp.bin");
}
