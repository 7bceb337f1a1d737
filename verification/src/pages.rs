//! What the site's pages decide: the addresses they link to and what a post
//! page shows for each outcome of looking a post up.

use crate::errors::PostError;
use crate::post::Post;
use vstd::prelude::*;

verus! {

/// The address of a post's page.
pub open spec fn post_path_text(id: Seq<char>) -> Seq<char> {
    "/blog/"@ + id
}

/// The address of a post's page; old addresses of posts redirect here too.
pub fn post_path(id: &str) -> (s: String)
    ensures
        s@ == post_path_text(id@),
{
    String::from_str("/blog/").concat(id)
}

/// The address of a GitHub repository.
pub open spec fn github_url_text(repo: Seq<char>) -> Seq<char> {
    "https://github.com/"@ + repo
}

/// The link to a project's repository, where the project names one.
pub fn github_link(repo: &str) -> (r: Option<String>)
    ensures
        repo@.len() == 0 ==> r is None,
        repo@.len() > 0 ==> (r matches Some(s) && s@ == github_url_text(repo@)),
{
    if repo.unicode_len() == 0 {
        None
    } else {
        Some(String::from_str("https://github.com/").concat(repo))
    }
}

/// Whether a project shows a cover image: where it names one.
pub fn shows_cover(image: &str) -> (b: bool)
    ensures
        b == (image@.len() > 0),
{
    image.unicode_len() != 0
}

/// The id in a post page's address, or the error shown where the address
/// does not give one.
pub fn post_id_param(id: Option<String>) -> (r: Result<String, PostError>)
    ensures
        match id {
            Some(s) => r == Ok::<String, PostError>(s),
            None => r == Err::<String, PostError>(PostError::InvalidTitle),
        },
{
    match id {
        Some(s) => Ok(s),
        None => Err(PostError::InvalidTitle),
    }
}

/// What a post page shows for the outcome of fetching the post: the post,
/// or that it was not found, or that the server failed.
pub fn post_lookup(fetched: Result<Option<Post>, String>) -> (r: Result<Post, PostError>)
    ensures
        match fetched {
            Ok(Some(p)) => r == Ok::<Post, PostError>(p),
            Ok(None) => r == Err::<Post, PostError>(PostError::PostNotFound),
            Err(_) => r == Err::<Post, PostError>(PostError::ServerError),
        },
{
    match fetched {
        Ok(Some(p)) => Ok(p),
        Ok(None) => Err(PostError::PostNotFound),
        Err(_) => Err(PostError::ServerError),
    }
}

} // verus!
