//! Run configuration: the values read from the command line, checked and
//! turned into the settings of a run.
use vstd::prelude::*;
use vstd::string::*;
use crate::ports::{ProtoPort, parse_port_spec, port_spec_pairs, is_port_spec, pairs_view, http_name, https_name};
use crate::text::{parse_uint, parse_uint_spec, strs_view};

verus! {

/// Why the command line values do not make a configuration.
pub enum ArgsError {
    /// A port specification that is not `[http[s]:]<0-65535>`.
    InvalidPort(String),
    /// A worker count that is no positive integer.
    InvalidWorkers(String),
    /// A timeout that is no integer number of milliseconds.
    InvalidTimeout(String),
    /// A status code that is no integer from 0 to 65535.
    InvalidStatusCode(String),
    /// Both protocols were switched off.
    ConflictingProtocols,
}

/// The values of the command line, as text, before they are checked.
pub struct RawArguments {
    pub targets: Vec<String>,
    pub ports: Vec<String>,
    pub workers: String,
    pub timeout: String,
    pub verbosity: usize,
    pub invalid_400: bool,
    pub invalid_codes: Vec<String>,
    pub show_title: bool,
    pub show_status: bool,
    pub progress: bool,
    pub delimiter: String,
    pub follow_redirect: bool,
    pub json_file: Option<String>,
}

/// The settings of a run.
pub struct Arguments {
    pub targets: Vec<String>,
    pub proto_ports: Vec<ProtoPort>,
    pub workers: usize,
    pub timeout: u64,
    pub verbosity: usize,
    pub invalid_codes: Vec<u16>,
    pub show_title: bool,
    pub show_status: bool,
    pub progress: bool,
    pub delimiter: String,
    pub follow_redirect: bool,
    pub json_file: Option<String>,
}

pub open spec fn invalid_port_message(v: Seq<char>) -> Seq<char> {
    "Invalid port '"@ + v + "'. Format is [http[s]:]<0-65535>"@
}

/// The pairs that a list of port specifications names, in order, or the
/// first specification that is invalid.
pub open spec fn ports_result(specs: Seq<Seq<char>>) -> Result<Seq<(Seq<char>, u16)>, Seq<char>>
    decreases specs.len(),
{
    if specs.len() == 0 {
        Ok(seq![])
    } else {
        match ports_result(specs.drop_last()) {
            Err(e) => Err(e),
            Ok(pairs) => match port_spec_pairs(specs.last()) {
                Some(more) => Ok(pairs + more),
                None => Err(specs.last()),
            },
        }
    }
}

/// Every pair that valid port specifications name is on `http` or `https`.
pub proof fn law_ports_are_http_or_https(specs: Seq<Seq<char>>)
    requires
        ports_result(specs) is Ok,
    ensures
        forall|k: int| 0 <= k < ports_result(specs)->Ok_0.len() ==>
            (#[trigger] ports_result(specs)->Ok_0[k]).0 == http_name()
                || ports_result(specs)->Ok_0[k].0 == https_name(),
    decreases specs.len(),
{
    if specs.len() > 0 {
        law_ports_are_http_or_https(specs.drop_last());
        let rest = ports_result(specs.drop_last())->Ok_0;
        let more = port_spec_pairs(specs.last())->0;
        assert forall|k: int| 0 <= k < ports_result(specs)->Ok_0.len() implies
            (#[trigger] ports_result(specs)->Ok_0[k]).0 == http_name()
                || ports_result(specs)->Ok_0[k].0 == https_name() by {
            if k >= rest.len() {
                assert(ports_result(specs)->Ok_0[k] == more[k - rest.len()]);
            } else {
                assert(ports_result(specs)->Ok_0[k] == rest[k]);
            }
        }
    }
}

/// The numbers from 0 to 65535 that a list of texts names, in order, or the
/// first text that names none.
pub open spec fn numbers_result(texts: Seq<Seq<char>>) -> Result<Seq<u16>, Seq<char>>
    decreases texts.len(),
{
    if texts.len() == 0 {
        Ok(seq![])
    } else {
        match numbers_result(texts.drop_last()) {
            Err(e) => Err(e),
            Ok(codes) => match parse_uint_spec(texts.last(), 65535) {
                Some(c) => Ok(codes.push(c as u16)),
                None => Err(texts.last()),
            },
        }
    }
}

/// The worker count that a text names: a positive integer that fits `usize`.
pub open spec fn workers_value(s: Seq<char>) -> Option<nat> {
    match parse_uint_spec(s, usize::MAX as nat) {
        Some(w) => if w > 0 { Some(w) } else { None },
        None => None,
    }
}

/// Checks one port specification: a bare port, or `http:` or `https:` and a
/// port, each port from 0 to 65535.
pub fn is_port(v: String) -> (r: Result<(), String>)
    ensures
        r is Ok <==> is_port_spec(v@),
        r is Err ==> r->Err_0@ == invalid_port_message(v@),
{
    match parse_port_spec(v.as_str()) {
        Some(_) => Ok(()),
        None => {
            let mut m = String::from_str("Invalid port '");
            m.append(v.as_str());
            m.append("'. Format is [http[s]:]<0-65535>");
            Err(m)
        },
    }
}

/// Reads a list of port specifications into protocol and port pairs, in
/// order; a bare port gives `http` and then `https`.
pub fn parse_ports(specs: &Vec<String>) -> (r: Result<Vec<ProtoPort>, String>)
    ensures
        r is Ok <==> ports_result(strs_view(specs@)) is Ok,
        r is Ok ==> pairs_view(r->Ok_0@) == ports_result(strs_view(specs@))->Ok_0,
        r is Err ==> r->Err_0@ == ports_result(strs_view(specs@))->Err_0,
{
    let mut pps: Vec<ProtoPort> = Vec::new();
    let mut i: usize = 0;
    while i < specs.len()
        invariant
            i <= specs@.len(),
            ports_result(strs_view(specs@).subrange(0, i as int)) is Ok,
            pairs_view(pps@) == ports_result(strs_view(specs@).subrange(0, i as int))->Ok_0,
        decreases specs@.len() - i,
    {
        let ghost sub = strs_view(specs@).subrange(0, i + 1);
        assert(sub.drop_last() =~= strs_view(specs@).subrange(0, i as int));
        assert(sub.last() == specs@[i as int]@);
        match parse_port_spec(specs[i].as_str()) {
            Some(more) => {
                let ghost prev = pps@;
                let mut j: usize = 0;
                while j < more.len()
                    invariant
                        j <= more@.len(),
                        pps@.len() == prev.len() + j,
                        pairs_view(pps@) =~= pairs_view(prev) + pairs_view(more@).subrange(0, j as int),
                    decreases more@.len() - j,
                {
                    let ghost before = pps@;
                    pps.push(more[j].duplicate());
                    let ghost want = pairs_view(prev) + pairs_view(more@).subrange(0, j + 1);
                    assert forall|k: int| 0 <= k < before.len() implies pairs_view(pps@)[k] == want[k] by {
                        assert(pps@[k] == before[k]);
                        assert(pairs_view(before)[k] == (pairs_view(prev) + pairs_view(more@).subrange(0, j as int))[k]);
                    }
                    assert(pairs_view(pps@)[before.len() as int] == want[before.len() as int]);
                    assert(pairs_view(pps@) =~= pairs_view(prev) + pairs_view(more@).subrange(0, j + 1));
                    j = j + 1;
                }
                assert(pairs_view(more@).subrange(0, more@.len() as int) =~= pairs_view(more@));
            },
            None => {
                assert(strs_view(specs@).subrange(0, i + 1) =~= sub);
                proof {
                    lemma_ports_result_stays_err(strs_view(specs@), i as int + 1);
                }
                return Err(specs[i].clone());
            },
        }
        i = i + 1;
    }
    assert(strs_view(specs@).subrange(0, specs@.len() as int) =~= strs_view(specs@));
    Ok(pps)
}

/// Once a prefix of the specifications holds an invalid one, the whole list
/// fails on that same one.
proof fn lemma_ports_result_stays_err(specs: Seq<Seq<char>>, n: int)
    requires
        0 <= n <= specs.len(),
        ports_result(specs.subrange(0, n)) is Err,
    ensures
        ports_result(specs) == ports_result(specs.subrange(0, n)),
    decreases specs.len() - n,
{
    if n < specs.len() {
        assert(specs.subrange(0, n + 1).drop_last() =~= specs.subrange(0, n));
        lemma_ports_result_stays_err(specs, n + 1);
    } else {
        assert(specs.subrange(0, n) =~= specs);
    }
}

proof fn lemma_numbers_result_stays_err(texts: Seq<Seq<char>>, n: int)
    requires
        0 <= n <= texts.len(),
        numbers_result(texts.subrange(0, n)) is Err,
    ensures
        numbers_result(texts) == numbers_result(texts.subrange(0, n)),
    decreases texts.len() - n,
{
    if n < texts.len() {
        assert(texts.subrange(0, n + 1).drop_last() =~= texts.subrange(0, n));
        lemma_numbers_result_stays_err(texts, n + 1);
    } else {
        assert(texts.subrange(0, n) =~= texts);
    }
}

/// Reads a list of numbers from 0 to 65535, in order.
pub fn parse_numbers(texts: &Vec<String>) -> (r: Result<Vec<u16>, String>)
    ensures
        r is Ok <==> numbers_result(strs_view(texts@)) is Ok,
        r is Ok ==> r->Ok_0@ == numbers_result(strs_view(texts@))->Ok_0,
        r is Err ==> r->Err_0@ == numbers_result(strs_view(texts@))->Err_0,
{
    let mut codes: Vec<u16> = Vec::new();
    let mut i: usize = 0;
    while i < texts.len()
        invariant
            i <= texts@.len(),
            numbers_result(strs_view(texts@).subrange(0, i as int)) is Ok,
            codes@ == numbers_result(strs_view(texts@).subrange(0, i as int))->Ok_0,
        decreases texts@.len() - i,
    {
        let ghost sub = strs_view(texts@).subrange(0, i + 1);
        assert(sub.drop_last() =~= strs_view(texts@).subrange(0, i as int));
        assert(sub.last() == texts@[i as int]@);
        match parse_uint(texts[i].as_str(), 65535) {
            Some(c) => {
                codes.push(c as u16);
            },
            None => {
                proof {
                    lemma_numbers_result_stays_err(strs_view(texts@), i as int + 1);
                }
                return Err(texts[i].clone());
            },
        }
        i = i + 1;
    }
    assert(strs_view(texts@).subrange(0, texts@.len() as int) =~= strs_view(texts@));
    Ok(codes)
}

impl Arguments {
    /// Checks the command line values and builds the settings of a run. The
    /// port specifications are checked first, then the worker count, the
    /// timeout and the status codes; the first value that fails is reported.
    /// The invalid status codes are 400 where `invalid_400` is set, followed
    /// by those listed.
    pub fn parse_args(raw: RawArguments) -> (r: Result<Self, ArgsError>)
        ensures
            r is Ok <==> ports_result(strs_view(raw.ports@)) is Ok
                && workers_value(raw.workers@) is Some
                && parse_uint_spec(raw.timeout@, u64::MAX as nat) is Some
                && numbers_result(strs_view(raw.invalid_codes@)) is Ok,
            r matches Ok(a) ==> a.targets == raw.targets
                && pairs_view(a.proto_ports@) == ports_result(strs_view(raw.ports@))->Ok_0
                && a.workers as nat == workers_value(raw.workers@)->0
                && a.timeout as nat == parse_uint_spec(raw.timeout@, u64::MAX as nat)->0
                && a.verbosity == raw.verbosity
                && a.invalid_codes@ == (if raw.invalid_400 { seq![400u16] } else { seq![] })
                    + numbers_result(strs_view(raw.invalid_codes@))->Ok_0
                && a.show_title == raw.show_title
                && a.show_status == raw.show_status
                && a.progress == raw.progress
                && a.delimiter == raw.delimiter
                && a.follow_redirect == raw.follow_redirect
                && a.json_file == raw.json_file,
            r matches Err(ArgsError::InvalidPort(p)) ==> ports_result(strs_view(raw.ports@)) is Err
                && p@ == ports_result(strs_view(raw.ports@))->Err_0,
            r matches Err(ArgsError::InvalidWorkers(w)) ==> ports_result(strs_view(raw.ports@)) is Ok
                && workers_value(raw.workers@) is None && w == raw.workers,
            r matches Err(ArgsError::InvalidTimeout(t)) ==> ports_result(strs_view(raw.ports@)) is Ok
                && workers_value(raw.workers@) is Some
                && parse_uint_spec(raw.timeout@, u64::MAX as nat) is None && t == raw.timeout,
            r matches Err(ArgsError::InvalidStatusCode(c)) ==> ports_result(strs_view(raw.ports@)) is Ok
                && workers_value(raw.workers@) is Some
                && parse_uint_spec(raw.timeout@, u64::MAX as nat) is Some
                && c@ == numbers_result(strs_view(raw.invalid_codes@))->Err_0,
            !(r matches Err(ArgsError::ConflictingProtocols)),
    {
        let proto_ports = match parse_ports(&raw.ports) {
            Ok(p) => p,
            Err(e) => return Err(ArgsError::InvalidPort(e)),
        };
        let workers = match parse_uint(raw.workers.as_str(), usize::MAX as u64) {
            Some(w) => {
                if w == 0 {
                    return Err(ArgsError::InvalidWorkers(raw.workers));
                }
                w as usize
            },
            None => return Err(ArgsError::InvalidWorkers(raw.workers)),
        };
        let timeout = match parse_uint(raw.timeout.as_str(), u64::MAX) {
            Some(t) => t,
            None => return Err(ArgsError::InvalidTimeout(raw.timeout)),
        };
        let listed = match parse_numbers(&raw.invalid_codes) {
            Ok(c) => c,
            Err(e) => return Err(ArgsError::InvalidStatusCode(e)),
        };
        let mut invalid_codes: Vec<u16> = Vec::new();
        if raw.invalid_400 {
            invalid_codes.push(400);
        }
        let ghost first = invalid_codes@;
        let mut i: usize = 0;
        while i < listed.len()
            invariant
                i <= listed@.len(),
                invalid_codes@ =~= first + listed@.subrange(0, i as int),
            decreases listed@.len() - i,
        {
            invalid_codes.push(listed[i]);
            i = i + 1;
        }
        assert(listed@.subrange(0, listed@.len() as int) =~= listed@);
        assert(first =~= (if raw.invalid_400 { seq![400u16] } else { seq![] }));
        Ok(Self {
            targets: raw.targets,
            proto_ports,
            workers,
            timeout,
            verbosity: raw.verbosity,
            invalid_codes,
            show_title: raw.show_title,
            show_status: raw.show_status,
            progress: raw.progress,
            delimiter: raw.delimiter,
            follow_redirect: raw.follow_redirect,
            json_file: raw.json_file,
        })
    }
}

} // verus!
