//! The object-store client: its builder, and connecting, which parses the
//! store's URL and settles the options it is opened with.

use vstd::prelude::*;
use crate::connect;

verus! {

/// url's parsed URL, carried through unopened.
#[verifier::external_type_specification]
#[verifier::external_body]
pub struct ExUrl(url::Url);

/// url's reason for refusing a string.
#[verifier::external_type_specification]
#[verifier::external_body]
pub struct ExParseError(url::ParseError);

/// Whether `Url::parse` accepts a string as an absolute URL.
pub uninterp spec fn parses_as_url(s: Seq<char>) -> bool;

/// Relies on url's `Url::parse`: it either parses an absolute URL or returns a
/// `ParseError`, and which of the two depends on the input alone.
pub assume_specification[ url::Url::parse ](input: &str) -> (r: Result<url::Url, url::ParseError>)
    ensures
        r is Ok <==> parses_as_url(input@),
;

#[derive(Debug)]
pub enum StoreError {
    MissingPath,
    ParseUrl(url::ParseError),
}

/// The options a list of key/value pairs sets; a later pair overrides an
/// earlier one with the same key.
pub open spec fn option_map(s: Seq<(String, String)>) -> Map<Seq<char>, Seq<char>>
    decreases s.len(),
{
    if s.len() == 0 {
        Map::empty()
    } else {
        option_map(s.drop_last()).insert(s.last().0@, s.last().1@)
    }
}

/// Sets one option, dropping every earlier setting of its key.
pub fn set_option(options: &Vec<(String, String)>, key: &String, value: &String) -> (r: Vec<
    (String, String),
>)
    ensures
        option_map(r@) == option_map(options@).insert(key@, value@),
{
    let mut r: Vec<(String, String)> = Vec::new();
    let mut i: usize = 0;
    assert(options@.subrange(0, 0) =~= Seq::<(String, String)>::empty());
    assert(option_map(r@) =~= option_map(options@.subrange(0, 0)).remove(key@));
    while i < options.len()
        invariant
            i <= options@.len(),
            option_map(r@) == option_map(options@.subrange(0, i as int)).remove(key@),
        decreases options@.len() - i,
    {
        let ghost prefix = options@.subrange(0, i as int);
        assert(options@.subrange(0, i + 1).drop_last() =~= prefix);
        if options[i].0 != *key {
            let ghost prev = r@;
            r.push((options[i].0.clone(), options[i].1.clone()));
            assert(r@.drop_last() =~= prev);
            assert(option_map(r@) =~= option_map(options@.subrange(0, i + 1)).remove(key@));
        } else {
            assert(option_map(r@) =~= option_map(options@.subrange(0, i + 1)).remove(key@));
        }
        i = i + 1;
    }
    assert(options@.subrange(0, options@.len() as int) =~= options@);
    let ghost prev = r@;
    r.push((key.clone(), value.clone()));
    assert(r@.drop_last() =~= prev);
    assert(option_map(r@) =~= option_map(options@).insert(key@, value@));
    r
}

/// The option under which a service account's credentials are handed to the store.
pub open spec fn service_account_key() -> Seq<char> {
    "google_service_account"@
}

/// The options a client opens the store with: its own, and the credentials
/// under the service-account key when it has any.
pub open spec fn connect_options(
    options: Option<Vec<(String, String)>>,
    credentials: Option<String>,
) -> Map<Seq<char>, Seq<char>> {
    let base = match options {
        Some(o) => option_map(o@),
        None => Map::empty(),
    };
    match credentials {
        Some(c) => base.insert(service_account_key(), c@),
        None => base,
    }
}

/// The parsed location of the store and the options to open it with.
#[derive(Debug)]
pub struct StoreContext {
    pub url: url::Url,
    pub options: Vec<(String, String)>,
}

#[derive(Debug)]
pub struct Client {
    pub path: String,
    pub credentials: Option<String>,
    pub options: Option<Vec<(String, String)>>,
    pub context: Option<StoreContext>,
}

impl connect::Client for Client {
    type Error = StoreError;

    /// Parses the path as a URL and settles the options; fails exactly when
    /// the path is not a URL.
    fn connect(self) -> (r: Result<Client, StoreError>)
        ensures
            r is Err <==> !parses_as_url(self.path@),
            r matches Err(e) ==> e is ParseUrl,
            r matches Ok(c) ==> {
                &&& c.path == self.path
                &&& c.credentials == self.credentials
                &&& c.options == self.options
                &&& c.context matches Some(ctx) && option_map(ctx.options@) == connect_options(
                    self.options,
                    self.credentials,
                )
            },
    {
        let url = match url::Url::parse(self.path.as_str()) {
            Ok(u) => u,
            Err(e) => {
                return Err(StoreError::ParseUrl(e));
            },
        };
        let mut options: Vec<(String, String)> = Vec::new();
        match &self.options {
            Some(o) => {
                let empty: Vec<(String, String)> = Vec::new();
                let mut i: usize = 0;
                assert(o@.subrange(0, 0) =~= empty@);
                while i < o.len()
                    invariant
                        i <= o@.len(),
                        option_map(options@) == option_map(o@.subrange(0, i as int)),
                    decreases o@.len() - i,
                {
                    let ghost prev = options@;
                    options.push((o[i].0.clone(), o[i].1.clone()));
                    assert(options@.drop_last() =~= prev);
                    assert(o@.subrange(0, i + 1).drop_last() =~= o@.subrange(0, i as int));
                    i = i + 1;
                }
                assert(o@.subrange(0, o@.len() as int) =~= o@);
            },
            None => {
                assert(option_map(options@) =~= Map::empty());
            },
        }
        match &self.credentials {
            Some(c) => {
                let key = String::from_str("google_service_account");
                options = set_option(&options, &key, c);
            },
            None => {},
        }
        let context = StoreContext { url, options };
        Ok(
            Client {
                path: self.path,
                credentials: self.credentials,
                options: self.options,
                context: Some(context),
            },
        )
    }
}

#[derive(Clone, Debug)]
pub struct ClientBuilder {
    pub path: Option<String>,
    pub credentials: Option<String>,
    pub options: Option<Vec<(String, String)>>,
}

impl ClientBuilder {
    pub fn new() -> (r: ClientBuilder)
        ensures
            r.path is None,
            r.credentials is None,
            r.options is None,
    {
        ClientBuilder { path: None, credentials: None, options: None }
    }

    pub fn credentials(self, credentials: String) -> (r: ClientBuilder)
        ensures
            r == (ClientBuilder { credentials: Some(credentials), ..self }),
    {
        ClientBuilder { credentials: Some(credentials), ..self }
    }

    pub fn path(self, path: String) -> (r: ClientBuilder)
        ensures
            r == (ClientBuilder { path: Some(path), ..self }),
    {
        ClientBuilder { path: Some(path), ..self }
    }

    pub fn options(self, options: Vec<(String, String)>) -> (r: ClientBuilder)
        ensures
            r == (ClientBuilder { options: Some(options), ..self }),
    {
        ClientBuilder { options: Some(options), ..self }
    }

    /// A client that is not yet connected; the path is required.
    pub fn build(self) -> (r: Result<Client, StoreError>)
        ensures
            r is Err <==> self.path is None,
            r matches Err(e) ==> e is MissingPath,
            r matches Ok(c) ==> {
                &&& Some(c.path) == self.path
                &&& c.credentials == self.credentials
                &&& c.options == self.options
                &&& c.context is None
            },
    {
        match self.path {
            Some(path) => Ok(
                Client {
                    path,
                    credentials: self.credentials,
                    options: self.options,
                    context: None,
                },
            ),
            None => Err(StoreError::MissingPath),
        }
    }
}

} // verus!
