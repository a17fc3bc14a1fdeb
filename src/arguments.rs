//! The settings of the plain variant of a run: one file of hosts, bare port
//! numbers, and switches for each protocol.
use vstd::prelude::*;
use crate::args::{ArgsError, numbers_result, parse_numbers, workers_value};
use crate::text::{parse_uint, parse_uint_spec, strs_view};

verus! {

/// The values of the command line, as text, before they are checked.
pub struct RawOptions {
    pub hosts_file: String,
    pub ports: Vec<String>,
    pub threads: String,
    pub timeout: String,
    pub verbosity: u64,
    pub invalid_400: bool,
    pub progress: bool,
    pub no_http: bool,
    pub no_https: bool,
}

/// The checked settings.
pub struct Arguments {
    hosts_filename: String,
    ports: Vec<u16>,
    threads: usize,
    timeout: u64,
    verbosity: u64,
    invalid_400: bool,
    progress: bool,
    use_http: bool,
    use_https: bool,
}

impl Arguments {
    pub closed spec fn spec_hosts_filename(&self) -> Seq<char> {
        self.hosts_filename@
    }

    pub closed spec fn spec_ports(&self) -> Seq<u16> {
        self.ports@
    }

    pub closed spec fn spec_threads(&self) -> usize {
        self.threads
    }

    pub closed spec fn spec_timeout(&self) -> u64 {
        self.timeout
    }

    pub closed spec fn spec_verbosity(&self) -> u64 {
        self.verbosity
    }

    pub closed spec fn spec_invalid_400(&self) -> bool {
        self.invalid_400
    }

    pub closed spec fn spec_progress(&self) -> bool {
        self.progress
    }

    pub closed spec fn spec_use_http(&self) -> bool {
        self.use_http
    }

    pub closed spec fn spec_use_https(&self) -> bool {
        self.use_https
    }

    /// Checks the command line values: switching off both protocols is
    /// refused first, then the ports, the thread count and the timeout (in
    /// seconds) are read, in that order; the first value that fails is
    /// reported.
    pub fn parse_args(raw: RawOptions) -> (r: Result<Self, ArgsError>)
        ensures
            r is Ok <==> !(raw.no_http && raw.no_https)
                && numbers_result(strs_view(raw.ports@)) is Ok
                && workers_value(raw.threads@) is Some
                && parse_uint_spec(raw.timeout@, u64::MAX as nat) is Some,
            r matches Ok(a) ==> a.spec_hosts_filename() == raw.hosts_file@
                && a.spec_ports() == numbers_result(strs_view(raw.ports@))->Ok_0
                && a.spec_threads() as nat == workers_value(raw.threads@)->0
                && a.spec_timeout() as nat == parse_uint_spec(raw.timeout@, u64::MAX as nat)->0
                && a.spec_verbosity() == raw.verbosity
                && a.spec_invalid_400() == raw.invalid_400
                && a.spec_progress() == raw.progress
                && a.spec_use_http() == !raw.no_http
                && a.spec_use_https() == !raw.no_https,
            r matches Err(ArgsError::ConflictingProtocols) ==> raw.no_http && raw.no_https,
            r matches Err(ArgsError::InvalidPort(p)) ==> !(raw.no_http && raw.no_https)
                && numbers_result(strs_view(raw.ports@)) is Err
                && p@ == numbers_result(strs_view(raw.ports@))->Err_0,
            r matches Err(ArgsError::InvalidWorkers(t)) ==> !(raw.no_http && raw.no_https)
                && numbers_result(strs_view(raw.ports@)) is Ok
                && workers_value(raw.threads@) is None && t == raw.threads,
            r matches Err(ArgsError::InvalidTimeout(t)) ==> !(raw.no_http && raw.no_https)
                && numbers_result(strs_view(raw.ports@)) is Ok
                && workers_value(raw.threads@) is Some
                && parse_uint_spec(raw.timeout@, u64::MAX as nat) is None && t == raw.timeout,
            !(r matches Err(ArgsError::InvalidStatusCode(_))),
    {
        if raw.no_http && raw.no_https {
            return Err(ArgsError::ConflictingProtocols);
        }
        let ports = match parse_numbers(&raw.ports) {
            Ok(p) => p,
            Err(e) => return Err(ArgsError::InvalidPort(e)),
        };
        let threads = match parse_uint(raw.threads.as_str(), usize::MAX as u64) {
            Some(t) => {
                if t == 0 {
                    return Err(ArgsError::InvalidWorkers(raw.threads));
                }
                t as usize
            },
            None => return Err(ArgsError::InvalidWorkers(raw.threads)),
        };
        let timeout = match parse_uint(raw.timeout.as_str(), u64::MAX) {
            Some(t) => t,
            None => return Err(ArgsError::InvalidTimeout(raw.timeout)),
        };
        Ok(Arguments {
            hosts_filename: raw.hosts_file,
            ports,
            threads,
            timeout,
            verbosity: raw.verbosity,
            invalid_400: raw.invalid_400,
            progress: raw.progress,
            use_http: !raw.no_http,
            use_https: !raw.no_https,
        })
    }

    pub fn hosts_filename(&self) -> (r: &String)
        ensures
            r@ == self.spec_hosts_filename(),
    {
        &self.hosts_filename
    }

    pub fn ports(&self) -> (r: &Vec<u16>)
        ensures
            r@ == self.spec_ports(),
    {
        &self.ports
    }

    pub fn threads(&self) -> (r: usize)
        ensures
            r == self.spec_threads(),
    {
        self.threads
    }

    pub fn timeout(&self) -> (r: u64)
        ensures
            r == self.spec_timeout(),
    {
        self.timeout
    }

    pub fn verbosity(&self) -> (r: u64)
        ensures
            r == self.spec_verbosity(),
    {
        self.verbosity
    }

    pub fn invalid_400(&self) -> (r: bool)
        ensures
            r == self.spec_invalid_400(),
    {
        self.invalid_400
    }

    pub fn progress(&self) -> (r: bool)
        ensures
            r == self.spec_progress(),
    {
        self.progress
    }

    pub fn use_http(&self) -> (r: bool)
        ensures
            r == self.spec_use_http(),
    {
        self.use_http
    }

    pub fn use_https(&self) -> (r: bool)
        ensures
            r == self.spec_use_https(),
    {
        self.use_https
    }
}

} // verus!
