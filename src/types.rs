use vstd::prelude::*;

verus! {

/// The desktop environment whose settings store holds the proxy configuration.
#[derive(Clone, Copy, PartialEq, Eq, Structural, Debug)]
pub enum Desktop {
    /// A settings database queried with `gsettings`.
    Gnome,
    /// An INI-style file queried with `kreadconfig5` / `kwriteconfig5`.
    Kde,
    /// Anything else: no adapter exists.
    Unsupported,
}

/// One of the three proxy roles, each with its own host and port.
#[derive(Clone, Copy, PartialEq, Eq, Structural, Debug)]
pub enum Service {
    Http,
    Https,
    Socks,
}

/// The value whose text could not be used.
#[derive(Clone, Copy, PartialEq, Eq, Structural, Debug)]
pub enum Field {
    Mode,
    Bypass,
    Host,
    Port,
    Schema,
    Config,
}

#[derive(Clone, Copy, PartialEq, Eq, Structural, Debug)]
pub enum Error {
    /// The store's output was not UTF-8, or a delimiter was missing.
    ParseStr(Field),
    /// The desktop environment has no adapter.
    NotSupport,
    /// A store tool could not be run, or gave no answer.
    Io,
    /// The base directories of the user could not be determined.
    Xdg,
}

/// What one run of a store tool gave: its standard output, or a failure.
pub type Reply = Result<Vec<u8>, Error>;

/// The uniform proxy model.
#[derive(Clone, Debug)]
pub struct Sysproxy {
    pub enable: bool,
    pub host: String,
    pub port: u16,
    pub bypass: String,
}

pub struct ProxyView {
    pub enable: bool,
    pub host: Seq<char>,
    pub port: u16,
    pub bypass: Seq<char>,
}

impl View for Sysproxy {
    type V = ProxyView;

    open spec fn view(&self) -> ProxyView {
        ProxyView { enable: self.enable, host: self.host@, port: self.port, bypass: self.bypass@ }
    }
}

/// A `Result` of text seen through the view of its `String`.
pub open spec fn text_result(r: Result<String, Error>) -> Result<Seq<char>, Error> {
    match r {
        Ok(s) => Ok(s@),
        Err(e) => Err(e),
    }
}

/// A `Result` of a proxy seen through its view.
pub open spec fn proxy_result(r: Result<Sysproxy, Error>) -> Result<ProxyView, Error> {
    match r {
        Ok(p) => Ok(p@),
        Err(e) => Err(e),
    }
}

} // verus!
