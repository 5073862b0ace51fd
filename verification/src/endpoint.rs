//! Request addresses of the camera's control and media endpoints.
//!
//! The camera answers on one fixed origin. Every address is that origin
//! followed by a path, and every path that names a stored file names it as
//! `{directory}/{name}`.

use vstd::prelude::*;
use vstd::string::StringExecFns;

verus! {

/// The origin of the camera: what every address holds before its path.
pub open spec fn origin() -> Seq<char> {
    "http://10.5.5.9:8080"@
}

/// Address of the request for `path`: the origin followed by the path as given.
pub open spec fn request_url(path: Seq<char>) -> Seq<char> {
    origin() + path
}

/// Path of the control request `param`.
pub open spec fn control_path(param: Seq<char>) -> Seq<char> {
    "/gp/"@ + param
}

/// How a stored file is named towards the camera: directory, slash, file name.
pub open spec fn remote_path(directory: Seq<char>, name: Seq<char>) -> Seq<char> {
    directory + "/"@ + name
}

/// Path under which the camera serves the bytes of a stored file.
pub open spec fn media_path(directory: Seq<char>, name: Seq<char>) -> Seq<char> {
    "/videos/DCIM/"@ + remote_path(directory, name)
}

/// Control request that deletes a stored file.
pub open spec fn delete_command(directory: Seq<char>, name: Seq<char>) -> Seq<char> {
    "gpControl/command/storage/delete?p="@ + remote_path(directory, name)
}

/// Builds the address of the control request `s`.
pub fn format_req(s: &str) -> (url: String)
    ensures
        url@ == request_url(control_path(s@)),
{
    let mut url = String::from_str("http://10.5.5.9:8080");
    url.append("/gp/");
    url.append(s);
    url
}

/// Address of the device information record.
pub fn info_url() -> (url: String)
    ensures
        url@ == request_url(control_path("gpControl/info"@)),
{
    format_req("gpControl/info")
}

/// Address of the media listing.
pub fn media_list_url() -> (url: String)
    ensures
        url@ == request_url(control_path("gpMediaList"@)),
{
    format_req("gpMediaList")
}

/// Address from which the file `name` of `directory` is downloaded.
pub fn media_url(directory: &str, name: &str) -> (url: String)
    ensures
        url@ == request_url(media_path(directory@, name@)),
{
    let mut url = String::from_str("http://10.5.5.9:8080");
    url.append("/videos/DCIM/");
    url.append(directory);
    url.append("/");
    url.append(name);
    url
}

/// Address of the request that deletes the file `name` of `directory`.
pub fn delete_url(directory: &str, name: &str) -> (url: String)
    ensures
        url@ == request_url(control_path(delete_command(directory@, name@))),
{
    let mut command = String::from_str("gpControl/command/storage/delete?p=");
    command.append(directory);
    command.append("/");
    command.append(name);
    format_req(command.as_str())
}

/// Whether a response with this status is an answer. Any status outside
/// 200 to 299 makes the request a failed one.
pub fn is_success(status: u16) -> (ok: bool)
    ensures
        ok == (200 <= status <= 299),
{
    200 <= status && status <= 299
}

} // verus!
