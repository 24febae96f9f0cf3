//! Reading pages of the web and local documents as text.
use vstd::prelude::*;
use vstd::string::*;
use crate::scan::starts_with;
use crate::text::text2;

verus! {

/// Which service reads a target.
#[derive(Debug)]
pub struct WebRoute {
    /// The address, or the full path of a local file.
    pub resolved: String,
    /// Whether the target is a local file.
    pub is_file: bool,
    /// Whether the document service reads it, and not the page service.
    pub pdf: bool,
}

/// Whether a target is a local file.
pub fn is_file_target(target: &str) -> (is_file: bool)
    ensures
        is_file == "file:"@.is_prefix_of(target@),
{
    starts_with(target, "file:")
}

/// Whether a page is read like this.
pub open spec fn is_route(
    target: &str,
    resolved: Result<String, String>,
    is_pdf: bool,
    route: Result<WebRoute, String>,
) -> bool {
    if "file:"@.is_prefix_of(target@) {
        match resolved {
            Ok(path) => route == Ok::<WebRoute, String>(
                WebRoute { resolved: path, is_file: true, pdf: is_pdf },
            ),
            Err(error) => route matches Err(reason) && reason@ == "Invalid file target: "@
                + error@,
        }
    } else {
        route matches Ok(taken) && taken.resolved@ == target@ && !taken.is_file && taken.pdf
            == is_pdf
    }
}

/// Which service reads a target, or why none does. A local file is first resolved
/// within the worktree; `resolved` is how that went. `is_pdf` is whether the target
/// is a document.
pub fn read_web_markdown(target: &str, resolved: Result<String, String>, is_pdf: bool) -> (route:
    Result<WebRoute, String>)
    ensures
        is_route(target, resolved, is_pdf, route),
{
    if is_file_target(target) {
        match resolved {
            Ok(path) => Ok(WebRoute { resolved: path, is_file: true, pdf: is_pdf }),
            Err(error) => Err(text2("Invalid file target: ", error.as_str())),
        }
    } else {
        Ok(WebRoute { resolved: target.to_owned(), is_file: false, pdf: is_pdf })
    }
}

/// The answer to a read: the text, or the guidance where there is none.
pub fn handle_read_web(read: Result<String, String>) -> (answer: String)
    ensures
        answer == match read {
            Ok(text) => text,
            Err(message) => message,
        },
{
    match read {
        Ok(text) => text,
        Err(message) => message,
    }
}

/// A file is read where its address leads, and only if it leads anywhere; a page at the
/// address that was given.
pub proof fn law_pages_are_read_where_they_are(
    target: &str,
    resolved: Result<String, String>,
    is_pdf: bool,
    route: Result<WebRoute, String>,
)
    requires
        is_route(target, resolved, is_pdf, route),
    ensures
        "file:"@.is_prefix_of(target@) ==> (route is Ok <==> resolved is Ok),
        !"file:"@.is_prefix_of(target@) ==> route is Ok,
        route matches Ok(taken) ==> {
            &&& taken.is_file <==> "file:"@.is_prefix_of(target@)
            &&& taken.pdf == is_pdf
            &&& taken.is_file ==> resolved == Ok::<String, String>(taken.resolved)
            &&& !taken.is_file ==> taken.resolved@ == target@
        },
{
}

} // verus!
