//! What each page request decides, short of running the template
//! engine: look the post up, and fall back to an inline HTML body
//! when it cannot be shown.
use vstd::prelude::*;

verus! {

use vstd::string::StringExecFns;
use crate::post::Post;
use crate::post::load_post;
use crate::post::spec_load;
use crate::post::spec_post_matches;

/// The inline body shown when a slug does not resolve to a post.
pub open spec fn spec_not_found_body(slug: Seq<char>) -> Seq<char> {
    "<h1>Post not found</h1><p>The post '"@ + slug + "' could not be found.</p>"@
}

pub fn not_found_page(slug: &str) -> (r: String)
    ensures
        r@ == spec_not_found_body(slug@),
{
    let mut out: String = String::from_str("<h1>Post not found</h1><p>The post '");
    out.append(slug);
    out.append("' could not be found.</p>");
    out
}

/// The inline body shown when the post page template fails to render.
pub open spec fn spec_render_error_body(msg: Seq<char>) -> Seq<char> {
    "<h1>Error rendering post</h1><p>"@ + msg + "</p>"@
}

pub fn render_error_page(msg: &str) -> (r: String)
    ensures
        r@ == spec_render_error_body(msg@),
{
    let mut out: String = String::from_str("<h1>Error rendering post</h1><p>");
    out.append(msg);
    out.append("</p>");
    out
}

/// Look one post up by slug. `text` is the contents of the file
/// `<slug>.md`, or nothing when that file cannot be read; a missing
/// or malformed file is not found, never a crash.
pub fn get_post(slug: &str, text: Option<&String>) -> (r: Option<Post>)
    ensures
        r is Some <==> (text is Some && spec_load((text->0)@) is Ok),
        r is Some ==> spec_post_matches(r->0, slug@ + ".md"@, (text->0)@),
{
    match text {
        None => None,
        Some(t) => {
            let mut name: String = String::from_str(slug);
            name.append(".md");
            match load_post(name.as_str(), t.as_str()) {
                Ok(p) => Some(p),
                Err(_) => None,
            }
        },
    }
}

/// The outcome of a post page request.
pub enum PostPage {
    /// The post loaded; the caller renders it.
    Found(Post),
    /// It did not; this inline body is the whole response.
    NotFound(String),
}

/// Decide a post page request: the loaded post when slug and file
/// resolve, else the inline not-found body.
pub fn post_page(slug: &str, text: Option<&String>) -> (r: PostPage)
    ensures
        r is Found <==> (text is Some && spec_load((text->0)@) is Ok),
        r is Found ==> spec_post_matches(r->Found_0, slug@ + ".md"@, (text->0)@),
        r is NotFound ==> r->NotFound_0@ == spec_not_found_body(slug@),
{
    match get_post(slug, text) {
        Some(p) => PostPage::Found(p),
        None => PostPage::NotFound(not_found_page(slug)),
    }
}

} // verus!
