//! The settings stores: which key holds which value, and the command that
//! reads or writes it.
use vstd::prelude::*;
use crate::types::{Desktop, Error, Field, Service};

verus! {

/// One value of the proxy configuration as a settings store keeps it.
///
/// In the INI-style store the host and port of a service share one key,
/// `<service>Proxy`, so there `Host` and `Port` name the same entry.
#[derive(Clone, Copy, PartialEq, Eq, Structural, Debug)]
pub enum Setting {
    Mode,
    Bypass,
    Host(Service),
    Port(Service),
}

/// A command to run: a program and its arguments.
#[derive(Clone, Debug)]
pub struct Invocation {
    pub program: String,
    pub args: Vec<String>,
}

pub struct InvocationView {
    pub program: Seq<char>,
    pub args: Seq<Seq<char>>,
}

impl View for Invocation {
    type V = InvocationView;

    open spec fn view(&self) -> InvocationView {
        InvocationView { program: self.program@, args: self.args@.map_values(|a: String| a@) }
    }
}

/// Classifies the value of the desktop signal (`XDG_CURRENT_DESKTOP`).
pub open spec fn desktop_of(signal: Option<Seq<char>>) -> Desktop {
    match signal {
        Some(s) => if s == "GNOME"@ {
            Desktop::Gnome
        } else if s == "KDE"@ {
            Desktop::Kde
        } else {
            Desktop::Unsupported
        },
        None => Desktop::Unsupported,
    }
}

/// The desktop environment that a signal names, matched case-sensitively;
/// any other value, or none, is unsupported.
pub fn detect(signal: &Option<String>) -> (r: Desktop)
    ensures
        r == desktop_of(
            match signal {
                Some(s) => Some(s@),
                None => None,
            },
        ),
{
    match signal {
        Some(s) => {
            if *s == String::from_str("GNOME") {
                Desktop::Gnome
            } else if *s == String::from_str("KDE") {
                Desktop::Kde
            } else {
                Desktop::Unsupported
            }
        },
        None => Desktop::Unsupported,
    }
}

pub open spec fn service_name(s: Service) -> Seq<char> {
    match s {
        Service::Http => "http"@,
        Service::Https => "https"@,
        Service::Socks => "socks"@,
    }
}

pub fn service_text(s: Service) -> (r: String)
    ensures
        r@ == service_name(s),
{
    match s {
        Service::Http => String::from_str("http"),
        Service::Https => String::from_str("https"),
        Service::Socks => String::from_str("socks"),
    }
}

/// The schema of a setting in the settings database.
pub open spec fn gnome_schema(k: Setting) -> Seq<char> {
    match k {
        Setting::Host(s) => "org.gnome.system.proxy"@ + "."@ + service_name(s),
        Setting::Port(s) => "org.gnome.system.proxy"@ + "."@ + service_name(s),
        _ => "org.gnome.system.proxy"@,
    }
}

/// The key of a setting in the settings database.
pub open spec fn gnome_key(k: Setting) -> Seq<char> {
    match k {
        Setting::Mode => "mode"@,
        Setting::Bypass => "ignore-hosts"@,
        Setting::Host(_) => "host"@,
        Setting::Port(_) => "port"@,
    }
}

/// The key of a setting in the `Proxy Settings` group of the INI-style file.
pub open spec fn kde_key(k: Setting) -> Seq<char> {
    match k {
        Setting::Mode => "ProxyType"@,
        Setting::Bypass => "NoProxyFor"@,
        Setting::Host(s) => service_name(s) + "Proxy"@,
        Setting::Port(s) => service_name(s) + "Proxy"@,
    }
}

fn gnome_schema_text(k: Setting) -> (r: String)
    ensures
        r@ == gnome_schema(k),
{
    let mut out = String::from_str("org.gnome.system.proxy");
    match k {
        Setting::Host(s) | Setting::Port(s) => {
            out.append(".");
            let name = service_text(s);
            out.append(name.as_str());
        },
        _ => {},
    }
    out
}

fn gnome_key_text(k: Setting) -> (r: String)
    ensures
        r@ == gnome_key(k),
{
    match k {
        Setting::Mode => String::from_str("mode"),
        Setting::Bypass => String::from_str("ignore-hosts"),
        Setting::Host(_) => String::from_str("host"),
        Setting::Port(_) => String::from_str("port"),
    }
}

fn kde_key_text(k: Setting) -> (r: String)
    ensures
        r@ == kde_key(k),
{
    match k {
        Setting::Mode => String::from_str("ProxyType"),
        Setting::Bypass => String::from_str("NoProxyFor"),
        Setting::Host(s) | Setting::Port(s) => {
            let mut out = service_text(s);
            out.append("Proxy");
            out
        },
    }
}

/// The command that reads (`value` is `None`) or writes a setting.
pub open spec fn command_spec(
    d: Desktop,
    config: Seq<char>,
    k: Setting,
    value: Option<Seq<char>>,
) -> Result<InvocationView, Error> {
    match d {
        Desktop::Gnome => {
            let head = match value {
                Some(_) => "set"@,
                None => "get"@,
            };
            let args = seq![head, gnome_schema(k), gnome_key(k)];
            Ok(
                InvocationView {
                    program: "gsettings"@,
                    args: match value {
                        Some(v) => args.push(v),
                        None => args,
                    },
                },
            )
        },
        Desktop::Kde => {
            let args = seq![
                "--file"@,
                config,
                "--group"@,
                "Proxy Settings"@,
                "--key"@,
                kde_key(k),
            ];
            match value {
                Some(v) => Ok(InvocationView { program: "kwriteconfig5"@, args: args.push(v) }),
                None => Ok(InvocationView { program: "kreadconfig5"@, args }),
            }
        },
        Desktop::Unsupported => Err(Error::NotSupport),
    }
}

pub open spec fn command_result(r: Result<Invocation, Error>) -> Result<InvocationView, Error> {
    match r {
        Ok(c) => Ok(c@),
        Err(e) => Err(e),
    }
}

/// The command that reads (`value` is `None`) or writes a setting; `config`
/// is the path of the INI-style file, unused for the settings database.
pub fn command(d: Desktop, config: &str, k: Setting, value: Option<&str>) -> (r: Result<
    Invocation,
    Error,
>)
    ensures
        command_result(r) == command_spec(
            d,
            config@,
            k,
            match value {
                Some(v) => Some(v@),
                None => None,
            },
        ),
{
    match d {
        Desktop::Gnome => {
            let mut args: Vec<String> = Vec::new();
            match value {
                Some(_) => args.push(String::from_str("set")),
                None => args.push(String::from_str("get")),
            }
            args.push(gnome_schema_text(k));
            args.push(gnome_key_text(k));
            match value {
                Some(v) => args.push(String::from_str(v)),
                None => {},
            }
            let r = Invocation { program: String::from_str("gsettings"), args };
            proof {
                let spec = command_spec(
                    d,
                    config@,
                    k,
                    match value {
                        Some(v) => Some(v@),
                        None => None,
                    },
                );
                assert(r@.args =~= spec->Ok_0.args);
            }
            Ok(r)
        },
        Desktop::Kde => {
            let mut args: Vec<String> = Vec::new();
            args.push(String::from_str("--file"));
            args.push(String::from_str(config));
            args.push(String::from_str("--group"));
            args.push(String::from_str("Proxy Settings"));
            args.push(String::from_str("--key"));
            args.push(kde_key_text(k));
            let program = match value {
                Some(v) => {
                    args.push(String::from_str(v));
                    String::from_str("kwriteconfig5")
                },
                None => String::from_str("kreadconfig5"),
            };
            let r = Invocation { program, args };
            proof {
                let spec = command_spec(
                    d,
                    config@,
                    k,
                    match value {
                        Some(v) => Some(v@),
                        None => None,
                    },
                );
                assert(r@.args =~= spec->Ok_0.args);
            }
            Ok(r)
        },
        Desktop::Unsupported => Err(Error::NotSupport),
    }
}

#[verifier::external_type_specification]
#[verifier::external_body]
pub struct ExBaseDirectories(xdg::BaseDirectories);

#[verifier::external_type_specification]
#[verifier::external_body]
pub struct ExBaseDirectoriesError(xdg::BaseDirectoriesError);

/// Relies on `xdg::BaseDirectories::new`: the user's base directories, read
/// from the environment; it fails where no home directory is known.
pub assume_specification[ xdg::BaseDirectories::new ]() -> Result<
    xdg::BaseDirectories,
    xdg::BaseDirectoriesError,
>;

pub open spec fn ends_with(s: Seq<char>, t: Seq<char>) -> bool {
    t.len() <= s.len() && s.subrange(s.len() - t.len(), s.len() as int) == t
}

/// Relies on `xdg::BaseDirectories::get_config_file`, which joins `name` to
/// the user's configuration directory, and on `Path::to_str`, which fails on
/// a path that is not UTF-8.
#[verifier::external_body]
fn config_file(dirs: &xdg::BaseDirectories, name: &str) -> (r: Option<String>)
    ensures
        r matches Some(p) ==> ends_with(p@, name@),
{
    match dirs.get_config_file(name).to_str() {
        Some(p) => Some(p.to_string()),
        None => None,
    }
}

/// The path of the INI-style file that holds the proxy settings.
pub fn kde_config() -> (r: Result<String, Error>)
    ensures
        r matches Ok(p) ==> ends_with(p@, "kioslaverc"@),
        r matches Err(e) ==> e == Error::Xdg || e == Error::ParseStr(Field::Config),
{
    match xdg::BaseDirectories::new() {
        Ok(dirs) => match config_file(&dirs, "kioslaverc") {
            Some(p) => Ok(p),
            None => Err(Error::ParseStr(Field::Config)),
        },
        Err(_) => Err(Error::Xdg),
    }
}

/// The configuration path that commands for `d` need: the INI-style file for
/// the store that has one, empty text for the other.
pub fn config_path(d: Desktop) -> (r: Result<String, Error>)
    ensures
        d == Desktop::Unsupported ==> r == Err::<String, Error>(Error::NotSupport),
        d == Desktop::Gnome ==> (r matches Ok(p) && p@.len() == 0),
        d == Desktop::Kde ==> (r matches Ok(p) ==> ends_with(p@, "kioslaverc"@)),
        d == Desktop::Kde ==> (r matches Err(e) ==> e == Error::Xdg || e == Error::ParseStr(
            Field::Config,
        )),
{
    match d {
        Desktop::Gnome => Ok(String::new()),
        Desktop::Kde => kde_config(),
        Desktop::Unsupported => Err(Error::NotSupport),
    }
}

} // verus!
