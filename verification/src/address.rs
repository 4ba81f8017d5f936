//! Addresses: a parsed URL whose components the schemes read as plain values.
//!
//! Parsing and every edit of a component is done by the `url` crate; this
//! module states what those calls return, and nothing proves it.

use vstd::prelude::*;
use vstd::utf8::encode_utf8;

verus! {

/// The longest text, in bytes of UTF-8, that is handed to an edit of an address.
pub const MAX_URL_BYTES: usize = 0x0400_0000;

/// The components of an address as mathematical values.
pub struct AddressView {
    /// The whole address as text.
    pub text: Seq<char>,
    pub scheme: Seq<char>,
    /// Empty where the address names no user.
    pub username: Seq<char>,
    pub password: Option<Seq<char>>,
    pub host: Option<Seq<char>>,
    pub port: Option<u16>,
    pub path: Seq<char>,
    pub query: Option<Seq<char>>,
    pub fragment: Option<Seq<char>>,
}

/// `url::Url`, carried along unread: a parsed address as the `url` crate
/// holds it.
#[verifier::external_type_specification]
#[verifier::external_body]
pub struct ExOutsideUrl(url::Url);

/// `url::ParseError`, carried along unread: why the `url` crate refused a
/// text or a host.
#[verifier::external_type_specification]
#[verifier::external_body]
pub struct ExOutsideParseError(url::ParseError);

/// An address: scheme name, path and the optional further components.
#[derive(Debug)]
pub struct Address {
    inner: url::Url,
    text: String,
    scheme: String,
    username: String,
    password: Option<String>,
    host: Option<String>,
    port: Option<u16>,
    path: String,
    query: Option<String>,
    fragment: Option<String>,
}

/// The view of an optional string.
pub open spec fn opt_text(o: Option<String>) -> Option<Seq<char>> {
    match o {
        Some(s) => Some(s@),
        None => None,
    }
}

/// The view of an optional address.
pub open spec fn opt_address(o: Option<Address>) -> Option<AddressView> {
    match o {
        Some(u) => Some(u@),
        None => None,
    }
}

/// The length of a text in bytes of UTF-8.
pub open spec fn byte_len(s: Seq<char>) -> nat {
    encode_utf8(s).len()
}

/// Whether a text is short enough to take part in an edit of an address.
pub open spec fn fits(s: Seq<char>) -> bool {
    byte_len(s) <= MAX_URL_BYTES
}

/// What `url::Url::parse` makes of a text: the components of the address, or
/// `None` where it rejects the text.
pub uninterp spec fn parsed_url(text: Seq<char>) -> Option<AddressView>;

/// What `url::Url::set_path` makes of an address and a new path.
pub uninterp spec fn path_set(url: AddressView, path: Seq<char>) -> AddressView;

/// What `url::Url::set_host` makes of an address and a new host, or `None`
/// where it refuses.
pub uninterp spec fn host_set(url: AddressView, host: Seq<char>) -> Option<AddressView>;

/// What `url::Url::set_username` makes of an address and a new user name, or
/// `None` where it refuses.
pub uninterp spec fn username_set(url: AddressView, username: Seq<char>) -> Option<AddressView>;

/// What `url::Url::set_password` makes of an address and a new password, or
/// `None` where it refuses.
pub uninterp spec fn password_set(url: AddressView, password: Seq<char>) -> Option<AddressView>;

/// What `url::Url::set_port` makes of an address and a new port, or `None`
/// where it refuses.
pub uninterp spec fn port_set(url: AddressView, port: u16) -> Option<AddressView>;

/// What `url::Url::set_fragment` makes of an address and a new fragment.
pub uninterp spec fn fragment_set(url: AddressView, fragment: Seq<char>) -> AddressView;

/// What `url::Url::set_query` makes of an address and a new query.
pub uninterp spec fn query_set(url: AddressView, query: Seq<char>) -> AddressView;

/// Calls `url::Url::parse`. The result is the address that `parsed_url` names
/// for the text, and an error exactly where `parsed_url` names none.
#[verifier::external_body]
fn outside_parse(text: &str) -> (r: Result<Address, url::ParseError>)
    ensures
        match r {
            Ok(u) => parsed_url(text@) == Some(u@),
            Err(_) => parsed_url(text@).is_none(),
        },
{
    let u = url::Url::parse(text)?;
    Ok(Address {
        text: u.as_str().into(),
        scheme: u.scheme().into(),
        username: u.username().into(),
        password: u.password().map(Into::into),
        host: u.host_str().map(Into::into),
        port: u.port(),
        path: u.path().into(),
        query: u.query().map(Into::into),
        fragment: u.fragment().map(Into::into),
        inner: u,
    })
}

/// Calls `url::Url::set_path` on a copy. The result is the address that
/// `path_set` names. Texts over the limit are left out: the call stops the
/// program where the address outgrows 32 bits.
#[verifier::external_body]
fn outside_set_path(url: &Address, path: &str) -> (r: Address)
    requires
        fits(url@.text),
        fits(path@),
    ensures
        r@ == path_set(url@, path@),
{
    let mut u = url.inner.clone();
    u.set_path(path);
    Address {
        text: u.as_str().into(),
        scheme: u.scheme().into(),
        username: u.username().into(),
        password: u.password().map(Into::into),
        host: u.host_str().map(Into::into),
        port: u.port(),
        path: u.path().into(),
        query: u.query().map(Into::into),
        fragment: u.fragment().map(Into::into),
        inner: u,
    }
}

/// Calls `url::Url::set_host` with a host on a copy. The result is the address
/// that `host_set` names, and the crate's error exactly where it names none.
/// Texts over the limit are left out, as for the path.
#[verifier::external_body]
fn outside_set_host(url: &Address, host: &str) -> (r: Result<Address, url::ParseError>)
    requires
        fits(url@.text),
        fits(host@),
    ensures
        match r {
            Ok(u) => host_set(url@, host@) == Some(u@),
            Err(_) => host_set(url@, host@).is_none(),
        },
{
    let mut u = url.inner.clone();
    u.set_host(Some(host))?;
    Ok(Address {
        text: u.as_str().into(),
        scheme: u.scheme().into(),
        username: u.username().into(),
        password: u.password().map(Into::into),
        host: u.host_str().map(Into::into),
        port: u.port(),
        path: u.path().into(),
        query: u.query().map(Into::into),
        fragment: u.fragment().map(Into::into),
        inner: u,
    })
}

/// Calls `url::Url::set_username` on a copy. The result is the address that
/// `username_set` names, and `None` exactly where it names none. Texts over
/// the limit are left out, as for the path.
#[verifier::external_body]
fn outside_set_username(url: &Address, username: &str) -> (r: Option<Address>)
    requires
        fits(url@.text),
        fits(username@),
    ensures
        opt_address(r) == username_set(url@, username@),
{
    let mut u = url.inner.clone();
    u.set_username(username).ok()?;
    Some(Address {
        text: u.as_str().into(),
        scheme: u.scheme().into(),
        username: u.username().into(),
        password: u.password().map(Into::into),
        host: u.host_str().map(Into::into),
        port: u.port(),
        path: u.path().into(),
        query: u.query().map(Into::into),
        fragment: u.fragment().map(Into::into),
        inner: u,
    })
}

/// Calls `url::Url::set_password` with a password on a copy. The result is the
/// address that `password_set` names, and `None` exactly where it names none.
/// Texts over the limit are left out, as for the path.
#[verifier::external_body]
fn outside_set_password(url: &Address, password: &str) -> (r: Option<Address>)
    requires
        fits(url@.text),
        fits(password@),
    ensures
        opt_address(r) == password_set(url@, password@),
{
    let mut u = url.inner.clone();
    u.set_password(Some(password)).ok()?;
    Some(Address {
        text: u.as_str().into(),
        scheme: u.scheme().into(),
        username: u.username().into(),
        password: u.password().map(Into::into),
        host: u.host_str().map(Into::into),
        port: u.port(),
        path: u.path().into(),
        query: u.query().map(Into::into),
        fragment: u.fragment().map(Into::into),
        inner: u,
    })
}

/// Calls `url::Url::set_port` with a port on a copy. The result is the address
/// that `port_set` names, and `None` exactly where it names none. An address
/// over the limit is left out, as for the path.
#[verifier::external_body]
fn outside_set_port(url: &Address, port: u16) -> (r: Option<Address>)
    requires
        fits(url@.text),
    ensures
        opt_address(r) == port_set(url@, port),
{
    let mut u = url.inner.clone();
    u.set_port(Some(port)).ok()?;
    Some(Address {
        text: u.as_str().into(),
        scheme: u.scheme().into(),
        username: u.username().into(),
        password: u.password().map(Into::into),
        host: u.host_str().map(Into::into),
        port: u.port(),
        path: u.path().into(),
        query: u.query().map(Into::into),
        fragment: u.fragment().map(Into::into),
        inner: u,
    })
}

/// Calls `url::Url::set_fragment` with a fragment on a copy. The result is the
/// address that `fragment_set` names. Texts over the limit are left out, as
/// for the path.
#[verifier::external_body]
fn outside_set_fragment(url: &Address, fragment: &str) -> (r: Address)
    requires
        fits(url@.text),
        fits(fragment@),
    ensures
        r@ == fragment_set(url@, fragment@),
{
    let mut u = url.inner.clone();
    u.set_fragment(Some(fragment));
    Address {
        text: u.as_str().into(),
        scheme: u.scheme().into(),
        username: u.username().into(),
        password: u.password().map(Into::into),
        host: u.host_str().map(Into::into),
        port: u.port(),
        path: u.path().into(),
        query: u.query().map(Into::into),
        fragment: u.fragment().map(Into::into),
        inner: u,
    }
}

/// Calls `url::Url::set_query` with a query on a copy. The result is the
/// address that `query_set` names. Texts over the limit are left out, as for
/// the path.
#[verifier::external_body]
fn outside_set_query(url: &Address, query: &str) -> (r: Address)
    requires
        fits(url@.text),
        fits(query@),
    ensures
        r@ == query_set(url@, query@),
{
    let mut u = url.inner.clone();
    u.set_query(Some(query));
    Address {
        text: u.as_str().into(),
        scheme: u.scheme().into(),
        username: u.username().into(),
        password: u.password().map(Into::into),
        host: u.host_str().map(Into::into),
        port: u.port(),
        path: u.path().into(),
        query: u.query().map(Into::into),
        fragment: u.fragment().map(Into::into),
        inner: u,
    }
}

/// `url::Url::clone` gives a copy of the parsed address. Nothing is said of
/// the copy, which is only carried along.
pub assume_specification[ <url::Url as Clone>::clone ](url: &url::Url) -> (r: url::Url);

/// Whether a text is short enough to take part in an edit of an address.
pub fn text_fits(s: &str) -> (r: bool)
    ensures
        r == fits(s@),
{
    s.as_bytes().len() <= MAX_URL_BYTES
}

fn clone_opt_text(o: &Option<String>) -> (r: Option<String>)
    ensures
        opt_text(r) == opt_text(*o),
{
    match o {
        Some(s) => Some(s.clone()),
        None => None,
    }
}

fn opt_text_ref(o: &Option<String>) -> (r: Option<&str>)
    ensures
        r.is_some() == o.is_some(),
        r matches Some(s) ==> opt_text(*o) == Some(s@),
{
    match o {
        Some(s) => Some(s.as_str()),
        None => None,
    }
}

impl View for Address {
    type V = AddressView;

    closed spec fn view(&self) -> AddressView {
        AddressView {
            text: self.text@,
            scheme: self.scheme@,
            username: self.username@,
            password: opt_text(self.password),
            host: opt_text(self.host),
            port: self.port,
            path: self.path@,
            query: opt_text(self.query),
            fragment: opt_text(self.fragment),
        }
    }
}

impl Clone for Address {
    fn clone(&self) -> (r: Self)
        ensures
            r@ == self@,
    {
        Address {
            inner: self.inner.clone(),
            text: self.text.clone(),
            scheme: self.scheme.clone(),
            username: self.username.clone(),
            password: clone_opt_text(&self.password),
            host: clone_opt_text(&self.host),
            port: self.port,
            path: self.path.clone(),
            query: clone_opt_text(&self.query),
            fragment: clone_opt_text(&self.fragment),
        }
    }
}

impl Address {
    /// Parses a text into an address. It succeeds exactly on the texts that the
    /// `url` crate accepts, with the components that it finds.
    pub fn parse(text: &str) -> (r: Result<Address, url::ParseError>)
        ensures
            match r {
                Ok(u) => parsed_url(text@) == Some(u@),
                Err(_) => parsed_url(text@).is_none(),
            },
    {
        outside_parse(text)
    }

    /// The whole address as text.
    pub fn as_str(&self) -> (r: &str)
        ensures
            r@ == self@.text,
    {
        self.text.as_str()
    }

    /// The scheme name, which selects the backend.
    pub fn scheme(&self) -> (r: &str)
        ensures
            r@ == self@.scheme,
    {
        self.scheme.as_str()
    }

    /// The user name; empty where there is none.
    pub fn username(&self) -> (r: &str)
        ensures
            r@ == self@.username,
    {
        self.username.as_str()
    }

    /// The password, if the address has one.
    pub fn password(&self) -> (r: Option<&str>)
        ensures
            r.is_some() == self@.password.is_some(),
            r matches Some(s) ==> self@.password == Some(s@),
    {
        opt_text_ref(&self.password)
    }

    /// The host as text, if the address has one.
    pub fn host_str(&self) -> (r: Option<&str>)
        ensures
            r.is_some() == self@.host.is_some(),
            r matches Some(s) ==> self@.host == Some(s@),
    {
        opt_text_ref(&self.host)
    }

    /// Whether the address has a host.
    pub fn has_host(&self) -> (r: bool)
        ensures
            r == self@.host.is_some(),
    {
        self.host.is_some()
    }

    /// The port, if the address names one.
    pub fn port(&self) -> (r: Option<u16>)
        ensures
            r == self@.port,
    {
        self.port
    }

    /// The path, which the backend interprets.
    pub fn path(&self) -> (r: &str)
        ensures
            r@ == self@.path,
    {
        self.path.as_str()
    }

    /// The query, if the address has one.
    pub fn query(&self) -> (r: Option<&str>)
        ensures
            r.is_some() == self@.query.is_some(),
            r matches Some(s) ==> self@.query == Some(s@),
    {
        opt_text_ref(&self.query)
    }

    /// The fragment, if the address has one.
    pub fn fragment(&self) -> (r: Option<&str>)
        ensures
            r.is_some() == self@.fragment.is_some(),
            r matches Some(s) ==> self@.fragment == Some(s@),
    {
        opt_text_ref(&self.fragment)
    }

    /// What `with_path` gives: the edited address, or `None` where a text is
    /// over the limit.
    pub open spec fn path_edit(url: AddressView, path: Seq<char>) -> Option<AddressView> {
        if fits(url.text) && fits(path) {
            Some(path_set(url, path))
        } else {
            None
        }
    }

    /// What `with_host` gives.
    pub open spec fn host_edit(url: AddressView, host: Seq<char>) -> Option<AddressView> {
        if fits(url.text) && fits(host) {
            host_set(url, host)
        } else {
            None
        }
    }

    /// What `with_username` gives.
    pub open spec fn username_edit(url: AddressView, username: Seq<char>) -> Option<AddressView> {
        if fits(url.text) && fits(username) {
            username_set(url, username)
        } else {
            None
        }
    }

    /// What `with_password` gives.
    pub open spec fn password_edit(url: AddressView, password: Seq<char>) -> Option<AddressView> {
        if fits(url.text) && fits(password) {
            password_set(url, password)
        } else {
            None
        }
    }

    /// What `with_port` gives.
    pub open spec fn port_edit(url: AddressView, port: u16) -> Option<AddressView> {
        if fits(url.text) {
            port_set(url, port)
        } else {
            None
        }
    }

    /// What `with_fragment` gives.
    pub open spec fn fragment_edit(url: AddressView, fragment: Seq<char>) -> Option<AddressView> {
        if fits(url.text) && fits(fragment) {
            Some(fragment_set(url, fragment))
        } else {
            None
        }
    }

    /// What `with_query` gives.
    pub open spec fn query_edit(url: AddressView, query: Seq<char>) -> Option<AddressView> {
        if fits(url.text) && fits(query) {
            Some(query_set(url, query))
        } else {
            None
        }
    }

    /// This address with another path; `None` where a text is over the limit.
    pub fn with_path(&self, path: &str) -> (r: Option<Address>)
        ensures
            opt_address(r) == Self::path_edit(self@, path@),
    {
        if text_fits(self.text.as_str()) && text_fits(path) {
            Some(outside_set_path(self, path))
        } else {
            None
        }
    }

    /// This address with another host. `Err(Some(_))` carries the reason for
    /// which the host was refused; `Err(None)` says that a text is over the
    /// limit.
    pub fn with_host(&self, host: &str) -> (r: Result<Address, Option<url::ParseError>>)
        ensures
            match r {
                Ok(u) => Self::host_edit(self@, host@) == Some(u@),
                Err(Some(_)) => fits(self@.text) && fits(host@) && host_set(self@, host@).is_none(),
                Err(None) => !(fits(self@.text) && fits(host@)),
            },
    {
        if text_fits(self.text.as_str()) && text_fits(host) {
            match outside_set_host(self, host) {
                Ok(u) => Ok(u),
                Err(e) => Err(Some(e)),
            }
        } else {
            Err(None)
        }
    }

    /// This address with another user name; `None` where the address cannot
    /// take one or a text is over the limit.
    pub fn with_username(&self, username: &str) -> (r: Option<Address>)
        ensures
            opt_address(r) == Self::username_edit(self@, username@),
    {
        if text_fits(self.text.as_str()) && text_fits(username) {
            outside_set_username(self, username)
        } else {
            None
        }
    }

    /// This address with another password; `None` where the address cannot
    /// take one or a text is over the limit.
    pub fn with_password(&self, password: &str) -> (r: Option<Address>)
        ensures
            opt_address(r) == Self::password_edit(self@, password@),
    {
        if text_fits(self.text.as_str()) && text_fits(password) {
            outside_set_password(self, password)
        } else {
            None
        }
    }

    /// This address with another port; `None` where the address cannot take
    /// one or its text is over the limit.
    pub fn with_port(&self, port: u16) -> (r: Option<Address>)
        ensures
            opt_address(r) == Self::port_edit(self@, port),
    {
        if text_fits(self.text.as_str()) {
            outside_set_port(self, port)
        } else {
            None
        }
    }

    /// This address with another fragment; `None` where a text is over the
    /// limit.
    pub fn with_fragment(&self, fragment: &str) -> (r: Option<Address>)
        ensures
            opt_address(r) == Self::fragment_edit(self@, fragment@),
    {
        if text_fits(self.text.as_str()) && text_fits(fragment) {
            Some(outside_set_fragment(self, fragment))
        } else {
            None
        }
    }

    /// This address with another query; `None` where a text is over the limit.
    pub fn with_query(&self, query: &str) -> (r: Option<Address>)
        ensures
            opt_address(r) == Self::query_edit(self@, query@),
    {
        if text_fits(self.text.as_str()) && text_fits(query) {
            Some(outside_set_query(self, query))
        } else {
            None
        }
    }
}

} // verus!
