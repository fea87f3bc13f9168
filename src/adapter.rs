//! The uniform proxy operations on top of a desktop's settings store.
//!
//! A read is done in two steps: [`Sysproxy::reads`] says which settings to
//! fetch, and the `get_*` functions turn the store's replies, in that order,
//! into the result. A write is planned by the `set_*` functions as a list of
//! assignments, carried out in order; [`next_step`] decides after each
//! command whether to run the next one or to stop at the first failure.
use vstd::prelude::*;
use vstd::utf8::{decode_utf8, valid_utf8};
use crate::codec::{
    bracket_list, clean_list, endpoint_spec, endpoint_text, format_bracket_list, format_endpoint,
    format_host, parse_endpoint, parse_list, parse_port, port_or_default, quoted_host,
    strip_brackets, strip_quotes, strip_str, unbracket,
};
use crate::store::Setting;
use crate::text::{decimal, decode, trim, trim_ws, u16_text};
use crate::types::{Desktop, Error, Field, ProxyView, Reply, Service, Sysproxy};

verus! {

/// What a read operation asks for.
#[derive(Clone, Copy, PartialEq, Eq, Structural, Debug)]
pub enum Query {
    Enable,
    Bypass,
    Proxy(Service),
    System,
}

/// A value to be written to a setting.
#[derive(Clone, Debug)]
pub struct Assignment {
    pub setting: Setting,
    pub value: String,
}

impl View for Assignment {
    type V = (Setting, Seq<char>);

    open spec fn view(&self) -> (Setting, Seq<char>) {
        (self.setting, self.value@)
    }
}

/// The settings that one endpoint occupies.
pub open spec fn endpoint_settings(d: Desktop, s: Service) -> Seq<Setting> {
    if d == Desktop::Gnome {
        seq![Setting::Host(s), Setting::Port(s)]
    } else {
        seq![Setting::Host(s)]
    }
}

/// The settings that a query reads, in the order in which the replies are
/// expected.
pub open spec fn reads_spec(d: Desktop, q: Query) -> Seq<Setting> {
    match q {
        Query::Enable => seq![Setting::Mode],
        Query::Bypass => seq![Setting::Bypass],
        Query::Proxy(s) => endpoint_settings(d, s),
        Query::System => seq![Setting::Mode] + endpoint_settings(d, Service::Socks)
            + endpoint_settings(d, Service::Https) + endpoint_settings(d, Service::Http) + seq![
            Setting::Bypass,
        ],
    }
}

/// The reply at `i`; a missing one counts as a store that could not be reached.
pub open spec fn reply_at(rs: Seq<Reply>, i: int) -> Reply {
    if 0 <= i < rs.len() {
        rs[i]
    } else {
        Err(Error::Io)
    }
}

/// The trimmed text of a reply; output that is not UTF-8 fails for `f`.
pub open spec fn text_spec(r: Reply, f: Field) -> Result<Seq<char>, Error> {
    match r {
        Ok(b) => if valid_utf8(b@) {
            Ok(trim_ws(decode_utf8(b@)))
        } else {
            Err(Error::ParseStr(f))
        },
        Err(e) => Err(e),
    }
}

/// Whether a stored mode means that the proxy is in use.
pub open spec fn enabled_in(d: Desktop, t: Seq<char>) -> bool {
    if d == Desktop::Gnome {
        t == "'manual'"@
    } else {
        t == "1"@
    }
}

pub open spec fn enable_read(d: Desktop, rs: Seq<Reply>, at: int) -> Result<bool, Error> {
    if d == Desktop::Unsupported {
        Err(Error::NotSupport)
    } else {
        match text_spec(reply_at(rs, at), Field::Mode) {
            Ok(t) => Ok(enabled_in(d, t)),
            Err(e) => Err(e),
        }
    }
}

pub open spec fn bypass_read(d: Desktop, rs: Seq<Reply>, at: int) -> Result<Seq<char>, Error> {
    if d == Desktop::Unsupported {
        Err(Error::NotSupport)
    } else {
        match text_spec(reply_at(rs, at), Field::Bypass) {
            Ok(t) => Ok(
                if d == Desktop::Gnome {
                    clean_list(unbracket(t))
                } else {
                    clean_list(t)
                },
            ),
            Err(e) => Err(e),
        }
    }
}

/// Host and port of the endpoint whose replies start at `at`.
pub open spec fn endpoint_read(d: Desktop, rs: Seq<Reply>, at: int) -> Result<
    (Seq<char>, u16),
    Error,
> {
    match d {
        Desktop::Gnome => match text_spec(reply_at(rs, at), Field::Host) {
            Ok(h) => match text_spec(reply_at(rs, at + 1), Field::Port) {
                Ok(p) => Ok((strip_quotes(h), port_or_default(p))),
                Err(e) => Err(e),
            },
            Err(e) => Err(e),
        },
        Desktop::Kde => match text_spec(reply_at(rs, at), Field::Schema) {
            Ok(t) => endpoint_spec(t),
            Err(e) => Err(e),
        },
        Desktop::Unsupported => Err(Error::NotSupport),
    }
}

/// A proxy that holds only an endpoint.
pub open spec fn endpoint_view(e: (Seq<char>, u16)) -> ProxyView {
    ProxyView { enable: false, host: e.0, port: e.1, bypass: Seq::empty() }
}

pub open spec fn proxy_read(d: Desktop, rs: Seq<Reply>) -> Result<ProxyView, Error> {
    match endpoint_read(d, rs, 0) {
        Ok(e) => Ok(endpoint_view(e)),
        Err(e) => Err(e),
    }
}

/// The endpoint that a combined read reports: SOCKS's own where its host is
/// set; else HTTPS's where its host is set; else HTTP's where its host is set;
/// else SOCKS's.
pub open spec fn choose_endpoint(
    socks: (Seq<char>, u16),
    https: (Seq<char>, u16),
    http: (Seq<char>, u16),
) -> (Seq<char>, u16) {
    if socks.0.len() != 0 {
        socks
    } else if https.0.len() != 0 {
        https
    } else if http.0.len() != 0 {
        http
    } else {
        socks
    }
}

/// How many replies one endpoint takes.
pub open spec fn endpoint_width(d: Desktop) -> int {
    if d == Desktop::Gnome {
        2
    } else {
        1
    }
}

pub open spec fn system_read(d: Desktop, rs: Seq<Reply>) -> Result<ProxyView, Error> {
    let k = endpoint_width(d);
    match enable_read(d, rs, 0) {
        Err(e) => Err(e),
        Ok(enable) => match endpoint_read(d, rs, 1) {
            Err(e) => Err(e),
            Ok(socks) => match endpoint_read(d, rs, 1 + k) {
                Err(e) => Err(e),
                Ok(https) => match endpoint_read(d, rs, 1 + 2 * k) {
                    Err(e) => Err(e),
                    Ok(http) => {
                        let chosen = choose_endpoint(socks, https, http);
                        let bypass = match bypass_read(d, rs, 1 + 3 * k) {
                            Ok(b) => b,
                            Err(_) => Seq::empty(),
                        };
                        Ok(ProxyView { enable, host: chosen.0, port: chosen.1, bypass })
                    },
                },
            },
        },
    }
}

/// The value that the mode setting takes.
pub open spec fn mode_value(d: Desktop, enable: bool) -> Seq<char> {
    if d == Desktop::Gnome {
        if enable {
            "'manual'"@
        } else {
            "'none'"@
        }
    } else if enable {
        "1"@
    } else {
        "0"@
    }
}

pub open spec fn enable_writes(d: Desktop, enable: bool) -> Seq<(Setting, Seq<char>)> {
    seq![(Setting::Mode, mode_value(d, enable))]
}

pub open spec fn bypass_writes(d: Desktop, bypass: Seq<char>) -> Seq<(Setting, Seq<char>)> {
    if d == Desktop::Gnome {
        seq![(Setting::Bypass, bracket_list(bypass))]
    } else {
        seq![(Setting::Bypass, bypass)]
    }
}

pub open spec fn endpoint_writes(d: Desktop, s: Service, host: Seq<char>, port: u16) -> Seq<
    (Setting, Seq<char>),
> {
    if d == Desktop::Gnome {
        seq![(Setting::Host(s), quoted_host(host)), (Setting::Port(s), decimal(port as nat))]
    } else {
        seq![(Setting::Host(s), endpoint_text(s, host, port))]
    }
}

/// All writes of a combined write: the mode first, and only where the proxy
/// is enabled the SOCKS, HTTPS and HTTP endpoints and the bypass list.
pub open spec fn system_writes(d: Desktop, p: ProxyView) -> Seq<(Setting, Seq<char>)> {
    if p.enable {
        enable_writes(d, p.enable) + endpoint_writes(d, Service::Socks, p.host, p.port)
            + endpoint_writes(d, Service::Https, p.host, p.port) + endpoint_writes(
            d,
            Service::Http,
            p.host,
            p.port,
        ) + bypass_writes(d, p.bypass)
    } else {
        enable_writes(d, p.enable)
    }
}

pub open spec fn plan_result(r: Result<Vec<Assignment>, Error>) -> Result<
    Seq<(Setting, Seq<char>)>,
    Error,
> {
    match r {
        Ok(v) => Ok(v@.map_values(|a: Assignment| a@)),
        Err(e) => Err(e),
    }
}

/// The plan for a supported desktop, and `NotSupport` for the other.
pub open spec fn plan_for(d: Desktop, w: Seq<(Setting, Seq<char>)>) -> Result<
    Seq<(Setting, Seq<char>)>,
    Error,
> {
    if d == Desktop::Unsupported {
        Err(Error::NotSupport)
    } else {
        Ok(w)
    }
}

/// What to do next while carrying out a list of store commands.
#[derive(Clone, Copy, PartialEq, Eq, Structural, Debug)]
pub enum Step {
    /// Run the command at this position.
    Run(usize),
    /// Stop: every command ran and succeeded.
    Done,
    /// Stop: a command failed with this error.
    Failed(Error),
}

/// The error of the first failed outcome, if any failed.
pub open spec fn first_failure<T>(outs: Seq<Result<T, Error>>) -> Option<Error>
    decreases outs.len(),
{
    if outs.len() == 0 {
        None
    } else {
        match first_failure(outs.drop_last()) {
            Some(e) => Some(e),
            None => match outs.last() {
                Err(e) => Some(e),
                Ok(_) => None,
            },
        }
    }
}

/// The next step after the outcomes so far of `total` commands: stop at the
/// first failure with its error, else run the next command, else succeed.
/// Nothing is undone after a failure.
pub open spec fn step_spec<T>(total: int, outs: Seq<Result<T, Error>>) -> Step {
    match first_failure(outs) {
        Some(e) => Step::Failed(e),
        None => if outs.len() < total {
            Step::Run(outs.len() as usize)
        } else {
            Step::Done
        },
    }
}

/// Decides, from the outcomes of the commands run so far, whether to run the
/// next one of `total` or to stop, and with which result.
pub fn next_step<T>(total: usize, outcomes: &Vec<Result<T, Error>>) -> (r: Step)
    ensures
        r == step_spec(total as int, outcomes@),
{
    let mut i: usize = 0;
    while i < outcomes.len()
        invariant
            i <= outcomes@.len(),
            first_failure(outcomes@.take(i as int)) is None,
        decreases outcomes@.len() - i,
    {
        proof {
            assert(outcomes@.take(i + 1).drop_last() == outcomes@.take(i as int));
        }
        match &outcomes[i] {
            Err(e) => {
                proof {
                    assert(first_failure(outcomes@.take(i + 1)) == Some(*e));
                    lemma_first_failure_prefix(outcomes@, i as int + 1);
                }
                return Step::Failed(*e);
            },
            Ok(_) => {},
        }
        i += 1;
    }
    proof {
        assert(outcomes@.take(i as int) == outcomes@);
    }
    if outcomes.len() < total {
        Step::Run(outcomes.len())
    } else {
        Step::Done
    }
}

/// A failure among the first `n` outcomes is the first failure of all of them.
pub proof fn lemma_first_failure_prefix<T>(outs: Seq<Result<T, Error>>, n: int)
    requires
        0 <= n <= outs.len(),
        first_failure(outs.take(n)) is Some,
    ensures
        first_failure(outs) == first_failure(outs.take(n)),
    decreases outs.len() - n,
{
    if n < outs.len() {
        assert(outs.take(n + 1).drop_last() == outs.take(n));
        lemma_first_failure_prefix(outs, n + 1);
    } else {
        assert(outs.take(n) == outs);
    }
}

fn text_at(rs: &Vec<Reply>, i: usize, f: Field) -> (r: Result<String, Error>)
    ensures
        crate::types::text_result(r) == text_spec(reply_at(rs@, i as int), f),
{
    if i < rs.len() {
        match &rs[i] {
            Ok(b) => match decode(b) {
                Some(s) => Ok(String::from_str(trim(s.as_str()))),
                None => Err(Error::ParseStr(f)),
            },
            Err(e) => Err(*e),
        }
    } else {
        Err(Error::Io)
    }
}

fn enable_at(d: Desktop, rs: &Vec<Reply>, at: usize) -> (r: Result<bool, Error>)
    ensures
        r == enable_read(d, rs@, at as int),
{
    if d == Desktop::Unsupported {
        return Err(Error::NotSupport);
    }
    let t = text_at(rs, at, Field::Mode)?;
    if d == Desktop::Gnome {
        Ok(t == String::from_str("'manual'"))
    } else {
        Ok(t == String::from_str("1"))
    }
}

fn bypass_at(d: Desktop, rs: &Vec<Reply>, at: usize) -> (r: Result<String, Error>)
    ensures
        crate::types::text_result(r) == bypass_read(d, rs@, at as int),
{
    if d == Desktop::Unsupported {
        return Err(Error::NotSupport);
    }
    let t = text_at(rs, at, Field::Bypass)?;
    if d == Desktop::Gnome {
        Ok(parse_list(strip_brackets(t.as_str())))
    } else {
        Ok(parse_list(t.as_str()))
    }
}

fn endpoint_at(d: Desktop, rs: &Vec<Reply>, at: usize) -> (r: Result<(String, u16), Error>)
    requires
        at < 100,
    ensures
        match r {
            Ok(v) => endpoint_read(d, rs@, at as int) == Ok::<(Seq<char>, u16), Error>(
                (v.0@, v.1),
            ),
            Err(e) => endpoint_read(d, rs@, at as int) == Err::<(Seq<char>, u16), Error>(e),
        },
{
    match d {
        Desktop::Gnome => {
            let h = text_at(rs, at, Field::Host)?;
            let p = text_at(rs, at + 1, Field::Port)?;
            Ok((String::from_str(strip_str(h.as_str())), parse_port(p.as_str())))
        },
        Desktop::Kde => {
            let t = text_at(rs, at, Field::Schema)?;
            parse_endpoint(t.as_str())
        },
        Desktop::Unsupported => Err(Error::NotSupport),
    }
}

fn endpoint_proxy(d: Desktop, rs: &Vec<Reply>) -> (r: Result<Sysproxy, Error>)
    ensures
        crate::types::proxy_result(r) == proxy_read(d, rs@),
{
    let (host, port) = endpoint_at(d, rs, 0)?;
    let r = Sysproxy { enable: false, host, port, bypass: String::new() };
    proof {
        assert(r@ == endpoint_view((host@, port)));
    }
    Ok(r)
}

fn push_assignment(plan: &mut Vec<Assignment>, setting: Setting, value: String)
    ensures
        final(plan)@.map_values(|a: Assignment| a@) == old(plan)@.map_values(
            |a: Assignment| a@,
        ).push((setting, value@)),
{
    plan.push(Assignment { setting, value });
    proof {
        assert(final(plan)@.map_values(|a: Assignment| a@) =~= old(plan)@.map_values(
            |a: Assignment| a@,
        ).push((setting, value@)));
    }
}

impl Sysproxy {
    /// The settings that `q` reads on `d`, in the order in which the `get_*`
    /// functions expect the replies.
    pub fn reads(d: Desktop, q: Query) -> (r: Result<Vec<Setting>, Error>)
        ensures
            d == Desktop::Unsupported ==> r == Err::<Vec<Setting>, Error>(Error::NotSupport),
            d != Desktop::Unsupported ==> (r matches Ok(v) && v@ == reads_spec(d, q)),
    {
        if d == Desktop::Unsupported {
            return Err(Error::NotSupport);
        }
        let mut v: Vec<Setting> = Vec::new();
        let ghost start = v@;
        match q {
            Query::Enable => v.push(Setting::Mode),
            Query::Bypass => v.push(Setting::Bypass),
            Query::Proxy(s) => Self::push_endpoint(d, s, &mut v),
            Query::System => {
                v.push(Setting::Mode);
                Self::push_endpoint(d, Service::Socks, &mut v);
                Self::push_endpoint(d, Service::Https, &mut v);
                Self::push_endpoint(d, Service::Http, &mut v);
                v.push(Setting::Bypass);
            },
        }
        proof {
            assert(v@ =~= reads_spec(d, q));
        }
        Ok(v)
    }

    fn push_endpoint(d: Desktop, s: Service, v: &mut Vec<Setting>)
        ensures
            final(v)@ == old(v)@ + endpoint_settings(d, s),
    {
        v.push(Setting::Host(s));
        if d == Desktop::Gnome {
            v.push(Setting::Port(s));
        }
        proof {
            assert(final(v)@ =~= old(v)@ + endpoint_settings(d, s));
        }
    }

    /// Whether the proxy is enabled, from the reply to the mode setting.
    pub fn get_enable(d: Desktop, replies: &Vec<Reply>) -> (r: Result<bool, Error>)
        ensures
            r == enable_read(d, replies@, 0),
    {
        enable_at(d, replies, 0)
    }

    /// The bypass list in canonical form, from the reply to the bypass setting.
    pub fn get_bypass(d: Desktop, replies: &Vec<Reply>) -> (r: Result<String, Error>)
        ensures
            crate::types::text_result(r) == bypass_read(d, replies@, 0),
    {
        bypass_at(d, replies, 0)
    }

    /// The HTTP endpoint, from the replies to its settings.
    pub fn get_http(d: Desktop, replies: &Vec<Reply>) -> (r: Result<Sysproxy, Error>)
        ensures
            crate::types::proxy_result(r) == proxy_read(d, replies@),
    {
        endpoint_proxy(d, replies)
    }

    /// The HTTPS endpoint, from the replies to its settings.
    pub fn get_https(d: Desktop, replies: &Vec<Reply>) -> (r: Result<Sysproxy, Error>)
        ensures
            crate::types::proxy_result(r) == proxy_read(d, replies@),
    {
        endpoint_proxy(d, replies)
    }

    /// The SOCKS endpoint, from the replies to its settings.
    pub fn get_socks(d: Desktop, replies: &Vec<Reply>) -> (r: Result<Sysproxy, Error>)
        ensures
            crate::types::proxy_result(r) == proxy_read(d, replies@),
    {
        endpoint_proxy(d, replies)
    }

    /// The whole configuration, from the replies to the settings of
    /// `Query::System`. An empty SOCKS host falls back to HTTP's endpoint and
    /// then to HTTPS's, which wins; a bypass list that cannot be read is empty.
    pub fn get_system_proxy(d: Desktop, replies: &Vec<Reply>) -> (r: Result<Sysproxy, Error>)
        ensures
            crate::types::proxy_result(r) == system_read(d, replies@),
    {
        let enable = enable_at(d, replies, 0)?;
        let k: usize = if d == Desktop::Gnome {
            2
        } else {
            1
        };
        let socks = endpoint_at(d, replies, 1)?;
        let https = endpoint_at(d, replies, 1 + k)?;
        let http = endpoint_at(d, replies, 1 + 2 * k)?;
        let (mut host, mut port) = socks;
        if host.unicode_len() == 0 {
            if http.0.unicode_len() > 0 {
                host = http.0;
                port = http.1;
            }
            if https.0.unicode_len() > 0 {
                host = https.0;
                port = https.1;
            }
        }
        let bypass = match bypass_at(d, replies, 1 + 3 * k) {
            Ok(b) => b,
            Err(_) => String::new(),
        };
        Ok(Sysproxy { enable, host, port, bypass })
    }

    /// The write that sets the mode to this proxy's enable flag.
    pub fn set_enable(&self, d: Desktop) -> (r: Result<Vec<Assignment>, Error>)
        ensures
            plan_result(r) == plan_for(d, enable_writes(d, self.enable)),
    {
        if d == Desktop::Unsupported {
            return Err(Error::NotSupport);
        }
        let mut plan: Vec<Assignment> = Vec::new();
        self.push_enable(d, &mut plan);
        proof {
            assert(plan@.map_values(|a: Assignment| a@) =~= enable_writes(d, self.enable));
        }
        Ok(plan)
    }

    fn push_enable(&self, d: Desktop, plan: &mut Vec<Assignment>)
        requires
            d != Desktop::Unsupported,
        ensures
            final(plan)@.map_values(|a: Assignment| a@) == old(plan)@.map_values(
                |a: Assignment| a@,
            ) + enable_writes(d, self.enable),
    {
        let value = if d == Desktop::Gnome {
            if self.enable {
                String::from_str("'manual'")
            } else {
                String::from_str("'none'")
            }
        } else if self.enable {
            String::from_str("1")
        } else {
            String::from_str("0")
        };
        push_assignment(plan, Setting::Mode, value);
        proof {
            assert(final(plan)@.map_values(|a: Assignment| a@) =~= old(plan)@.map_values(
                |a: Assignment| a@,
            ) + enable_writes(d, self.enable));
        }
    }

    /// The write of the bypass list: bracketed and quoted for the settings
    /// database, verbatim for the INI-style file.
    pub fn set_bypass(&self, d: Desktop) -> (r: Result<Vec<Assignment>, Error>)
        ensures
            plan_result(r) == plan_for(d, bypass_writes(d, self.bypass@)),
    {
        if d == Desktop::Unsupported {
            return Err(Error::NotSupport);
        }
        let mut plan: Vec<Assignment> = Vec::new();
        self.push_bypass(d, &mut plan);
        proof {
            assert(plan@.map_values(|a: Assignment| a@) =~= bypass_writes(d, self.bypass@));
        }
        Ok(plan)
    }

    fn push_bypass(&self, d: Desktop, plan: &mut Vec<Assignment>)
        requires
            d != Desktop::Unsupported,
        ensures
            final(plan)@.map_values(|a: Assignment| a@) == old(plan)@.map_values(
                |a: Assignment| a@,
            ) + bypass_writes(d, self.bypass@),
    {
        let value = if d == Desktop::Gnome {
            format_bracket_list(self.bypass.as_str())
        } else {
            self.bypass.clone()
        };
        push_assignment(plan, Setting::Bypass, value);
        proof {
            assert(final(plan)@.map_values(|a: Assignment| a@) =~= old(plan)@.map_values(
                |a: Assignment| a@,
            ) + bypass_writes(d, self.bypass@));
        }
    }

    fn push_endpoint_writes(&self, d: Desktop, s: Service, plan: &mut Vec<Assignment>)
        requires
            d != Desktop::Unsupported,
        ensures
            final(plan)@.map_values(|a: Assignment| a@) == old(plan)@.map_values(
                |a: Assignment| a@,
            ) + endpoint_writes(d, s, self.host@, self.port),
    {
        let ghost before = plan@.map_values(|a: Assignment| a@);
        if d == Desktop::Gnome {
            push_assignment(plan, Setting::Host(s), format_host(self.host.as_str()));
            push_assignment(plan, Setting::Port(s), u16_text(self.port));
        } else {
            push_assignment(
                plan,
                Setting::Host(s),
                format_endpoint(s, self.host.as_str(), self.port),
            );
        }
        proof {
            assert(plan@.map_values(|a: Assignment| a@) =~= before + endpoint_writes(
                d,
                s,
                self.host@,
                self.port,
            ));
        }
    }

    fn set_endpoint(&self, d: Desktop, s: Service) -> (r: Result<Vec<Assignment>, Error>)
        ensures
            plan_result(r) == plan_for(d, endpoint_writes(d, s, self.host@, self.port)),
    {
        if d == Desktop::Unsupported {
            return Err(Error::NotSupport);
        }
        let mut plan: Vec<Assignment> = Vec::new();
        self.push_endpoint_writes(d, s, &mut plan);
        proof {
            assert(plan@.map_values(|a: Assignment| a@) =~= endpoint_writes(
                d,
                s,
                self.host@,
                self.port,
            ));
        }
        Ok(plan)
    }

    /// The writes of this proxy's host and port as the HTTP endpoint.
    pub fn set_http(&self, d: Desktop) -> (r: Result<Vec<Assignment>, Error>)
        ensures
            plan_result(r) == plan_for(d, endpoint_writes(d, Service::Http, self.host@, self.port)),
    {
        self.set_endpoint(d, Service::Http)
    }

    /// The writes of this proxy's host and port as the HTTPS endpoint.
    pub fn set_https(&self, d: Desktop) -> (r: Result<Vec<Assignment>, Error>)
        ensures
            plan_result(r) == plan_for(
                d,
                endpoint_writes(d, Service::Https, self.host@, self.port),
            ),
    {
        self.set_endpoint(d, Service::Https)
    }

    /// The writes of this proxy's host and port as the SOCKS endpoint.
    pub fn set_socks(&self, d: Desktop) -> (r: Result<Vec<Assignment>, Error>)
        ensures
            plan_result(r) == plan_for(
                d,
                endpoint_writes(d, Service::Socks, self.host@, self.port),
            ),
    {
        self.set_endpoint(d, Service::Socks)
    }

    /// All writes of the whole configuration, in order: the mode, then, only
    /// where the proxy is enabled, SOCKS, HTTPS, HTTP and the bypass list.
    pub fn set_system_proxy(&self, d: Desktop) -> (r: Result<Vec<Assignment>, Error>)
        ensures
            plan_result(r) == plan_for(d, system_writes(d, self@)),
    {
        if d == Desktop::Unsupported {
            return Err(Error::NotSupport);
        }
        let mut plan: Vec<Assignment> = Vec::new();
        self.push_enable(d, &mut plan);
        if self.enable {
            self.push_endpoint_writes(d, Service::Socks, &mut plan);
            self.push_endpoint_writes(d, Service::Https, &mut plan);
            self.push_endpoint_writes(d, Service::Http, &mut plan);
            self.push_bypass(d, &mut plan);
        }
        proof {
            assert(plan@.map_values(|a: Assignment| a@) =~= system_writes(d, self@));
        }
        Ok(plan)
    }
}

} // verus!
