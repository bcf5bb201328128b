use vstd::prelude::*;
use vstd::string::*;

verus! {

/// An error reported by the content API.
#[derive(Debug, Clone)]
pub struct ApiError {
    pub message: String,
}

impl ApiError {
    /// The text shown for the error: `API Error: ` followed by its message.
    pub fn describe(&self) -> (r: String)
        ensures
            r@ == "API Error: "@ + self.message@,
    {
        String::from_str("API Error: ").concat(self.message.as_str())
    }
}

/// A blog post.
#[derive(Debug, Clone)]
pub struct Post {
    pub id: u32,
    pub slug: String,
    pub title: String,
    pub content: String,
    pub author: String,
    pub created_at: String,
    pub updated_at: String,
    pub published: bool,
}

/// A registered user.
#[derive(Debug, Clone)]
pub struct User {
    pub id: u32,
    pub username: String,
    pub email: String,
    pub password_hash: String,
    pub role: UserRole,
    pub created_at: String,
    pub active: bool,
}

/// What a user may do.
#[derive(Debug, Clone, Copy, PartialEq, Eq, Structural)]
pub enum UserRole {
    Admin,
    Editor,
    Author,
    Subscriber,
}

/// The current session.
#[derive(Debug, Clone)]
pub struct Session {
    pub user_id: Option<u32>,
    pub username: Option<String>,
    pub role: Option<UserRole>,
    pub authenticated: bool,
}

impl Default for Session {
    fn default() -> (r: Session)
        ensures
            r.user_id is None,
            r.username is None,
            r.role is None,
            !r.authenticated,
    {
        Session { user_id: None, username: None, role: None, authenticated: false }
    }
}

/// A comment on a post.
#[derive(Debug, Clone)]
pub struct Comment {
    pub id: u32,
    pub post_id: u32,
    pub author: String,
    pub content: String,
    pub created_at: String,
    pub approved: bool,
}

/// An uploaded media file.
#[derive(Debug, Clone)]
pub struct MediaFile {
    pub id: u32,
    pub filename: String,
    pub original_name: String,
    pub mime_type: String,
    pub file_size: u64,
    pub uploaded_at: String,
    pub uploaded_by: Option<u32>,
    pub alt_text: Option<String>,
}

/// A site theme.
#[derive(Debug, Clone)]
pub struct SiteTheme {
    pub id: u32,
    pub name: String,
    pub description: Option<String>,
    pub css_content: String,
    pub active: bool,
}

/// Search-engine metadata of a page.
#[derive(Debug, Clone)]
pub struct SeoMetadata {
    pub meta_description: Option<String>,
    pub meta_keywords: Option<String>,
    pub og_title: Option<String>,
    pub og_description: Option<String>,
    pub og_image: Option<String>,
}

/// One recorded analytics event.
#[derive(Debug, Clone)]
pub struct AnalyticsEvent {
    pub id: u32,
    pub event_type: String,
    pub path: String,
    pub user_agent: Option<String>,
    pub ip_address: Option<String>,
    pub timestamp: String,
}

/// The decimal digits of `n`, without leading zeros.
pub open spec fn decimal(n: nat) -> Seq<char>
    decreases n,
{
    if n < 10 {
        seq!["0123456789"@[n as int]]
    } else {
        decimal(n / 10) + seq!["0123456789"@[(n % 10) as int]]
    }
}

/// The decimal digits of `n`.
pub fn decimal_string(n: u32) -> (r: String)
    ensures
        r@ == decimal(n as nat),
    decreases n,
{
    let digits = "0123456789";
    proof {
        reveal_strlit("0123456789");
    }
    let d = (n % 10) as usize;
    let last = digits.substring_char(d, d + 1);
    assert(last@ =~= seq!["0123456789"@[d as int]]);
    if n < 10 {
        String::from_str(last)
    } else {
        decimal_string(n / 10).concat(last)
    }
}

/// A client of the content API, rooted at a base url.
pub struct CmsClient {
    base_url: String,
}

impl CmsClient {
    /// The base url the client's requests are made under.
    pub closed spec fn base(&self) -> Seq<char> {
        self.base_url@
    }

    pub fn new(base_url: String) -> (r: Self)
        ensures
            r.base() == base_url@,
    {
        CmsClient { base_url }
    }

    /// A client of the API served on this machine, port 8080.
    pub fn default() -> (r: Self)
        ensures
            r.base() == "http://localhost:8080"@,
    {
        Self::new(String::from_str("http://localhost:8080"))
    }

    pub fn base_url(&self) -> (r: &str)
        ensures
            r@ == self.base(),
    {
        self.base_url.as_str()
    }

    /// Where all posts are listed and new posts are created.
    pub fn posts_url(&self) -> (r: String)
        ensures
            r@ == self.base() + "/api/posts"@,
    {
        self.base_url.clone().concat("/api/posts")
    }

    /// Where the post with this id is found.
    pub fn post_url(&self, id: u32) -> (r: String)
        ensures
            r@ == self.base() + "/api/posts/"@ + decimal(id as nat),
    {
        let digits = decimal_string(id);
        self.base_url.clone().concat("/api/posts/").concat(digits.as_str())
    }

    /// Where the post with this slug is found.
    pub fn post_slug_url(&self, slug: &str) -> (r: String)
        ensures
            r@ == self.base() + "/api/posts/slug/"@ + slug@,
    {
        self.base_url.clone().concat("/api/posts/slug/").concat(slug)
    }

    /// Where credentials are sent to open a session.
    pub fn login_url(&self) -> (r: String)
        ensures
            r@ == self.base() + "/api/auth/login"@,
    {
        self.base_url.clone().concat("/api/auth/login")
    }

    /// Where the user with this name is found.
    pub fn user_url(&self, username: &str) -> (r: String)
        ensures
            r@ == self.base() + "/api/users/"@ + username@,
    {
        self.base_url.clone().concat("/api/users/").concat(username)
    }
}

/// Whether a lookup answered with this HTTP status found something: every status but
/// 404 (not found) goes on to read the answer.
pub fn lookup_found(status: u16) -> (r: bool)
    ensures
        r == (status != 404),
{
    status != 404
}

} // verus!
