use vstd::prelude::*;
use vstd::string::*;

verus! {

/// The domain that cookies are scoped to in production, so that every
/// subdomain receives them.
pub const PRODUCTION_COOKIE_DOMAIN: &'static str = "cuddlefish.app";

/// To which cross-site requests a browser attaches a cookie.
#[derive(Debug, Clone, Copy, PartialEq, Eq, Structural)]
pub enum SameSite {
    Strict,
    Lax,
    /// Attached to every request; written `None`.
    Unrestricted,
}

/// The name that a `SameSite` attribute gives the policy.
pub open spec fn same_site_text(s: SameSite) -> Seq<char> {
    match s {
        SameSite::Strict => "Strict"@,
        SameSite::Lax => "Lax"@,
        SameSite::Unrestricted => "None"@,
    }
}

/// A cookie that the service sets.
pub struct SessionCookie {
    pub name: String,
    pub value: String,
    /// Sent over HTTPS only.
    pub secure: bool,
    /// Hidden from scripts.
    pub http_only: bool,
    pub same_site: SameSite,
    pub path: String,
    pub domain: Option<String>,
}

/// The `Set-Cookie` header value of a cookie with these attributes, written as
/// the `cookie` crate writes a cookie without expiry whose `Secure` flag is
/// set either way: the attributes in the order `HttpOnly`, `SameSite`,
/// `Secure`, `Path`, `Domain`, each present flag or value after `; `.
pub open spec fn set_cookie_text(
    name: Seq<char>,
    value: Seq<char>,
    http_only: bool,
    same_site: SameSite,
    secure: bool,
    path: Seq<char>,
    domain: Option<Seq<char>>,
) -> Seq<char> {
    name + "="@ + value + (if http_only {
        "; HttpOnly"@
    } else {
        Seq::empty()
    }) + "; SameSite="@ + same_site_text(same_site) + (if secure {
        "; Secure"@
    } else {
        Seq::empty()
    }) + "; Path="@ + path + match domain {
        Some(d) => "; Domain="@ + d,
        None => Seq::empty(),
    }
}

impl SessionCookie {
    pub open spec fn domain_view(&self) -> Option<Seq<char>> {
        match self.domain {
            Some(d) => Some(d@),
            None => None,
        }
    }

    /// The `Set-Cookie` header value of this cookie.
    pub open spec fn header_text(&self) -> Seq<char> {
        set_cookie_text(
            self.name@,
            self.value@,
            self.http_only,
            self.same_site,
            self.secure,
            self.path@,
            self.domain_view(),
        )
    }

    /// The value of a `Set-Cookie` header that sets this cookie.
    pub fn to_header_value(&self) -> (r: String)
        ensures
            r@ == self.header_text(),
    {
        render_set_cookie(self)
    }
}

/// Relies on `cookie::Cookie`'s `Display`, which writes `name=value` and then
/// the attributes that were set, in the order that `set_cookie_text` gives;
/// `Secure` is always set here, so `SameSite=None` (`Unrestricted`) adds no second `Secure`.
#[verifier::external_body]
fn render_set_cookie(c: &SessionCookie) -> (r: String)
    ensures
        r@ == c.header_text(),
{
    let mut b = ::cookie::Cookie::build(c.name.clone(), c.value.clone())
        .secure(c.secure)
        .http_only(c.http_only)
        .same_site(
            match c.same_site {
                SameSite::Strict => ::cookie::SameSite::Strict,
                SameSite::Lax => ::cookie::SameSite::Lax,
                SameSite::Unrestricted => ::cookie::SameSite::None,
            },
        )
        .path(c.path.clone());
    if let Some(d) = &c.domain {
        b = b.domain(d.clone());
    }
    b.finish().to_string()
}

/// The cookie `name=value` that the service sets: sent for every path of the
/// site and to requests from the site only (`SameSite=Strict`), hidden from scripts when
/// `http_only`; in production (`running_on_render`) also sent over HTTPS only
/// and scoped to every subdomain of the production domain.
pub fn cookie(name: &str, value: &str, http_only: bool, running_on_render: bool) -> (r:
    SessionCookie)
    ensures
        r.name@ == name@,
        r.value@ == value@,
        r.secure == running_on_render,
        r.http_only == http_only,
        r.same_site == SameSite::Strict,
        r.path@ == "/"@,
        r.domain_view() == (if running_on_render {
            Some(PRODUCTION_COOKIE_DOMAIN@)
        } else {
            None
        }),
{
    let domain = if running_on_render {
        Some(String::from_str(PRODUCTION_COOKIE_DOMAIN))
    } else {
        None
    };
    SessionCookie {
        name: String::from_str(name),
        value: String::from_str(value),
        secure: running_on_render,
        http_only,
        same_site: SameSite::Strict,
        path: String::from_str("/"),
        domain,
    }
}

} // verus!
