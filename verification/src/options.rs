//! Command-line options: the server's configuration surface, and the parser
//! that fills it from an argument list.

use vstd::prelude::*;
use vstd::string::*;

verus! {

/// The server's configuration: where to listen, what to serve, and whether
/// single-page-application fallback and live reload are on.
#[derive(Debug, Clone)]
pub struct ServeOptions {
    /// The port to listen on (default: 8080).
    pub port: u16,
    /// The host address to bind to (default: 127.0.0.1).
    pub host: String,
    /// The directory to serve files from (default: the working directory).
    pub directory: Option<String>,
    /// Fall back to the root index document for unmatched paths.
    pub spa: bool,
    /// Watch the served directory and tell clients to reload on changes.
    pub watch: bool,
}

/// The mathematical form of `ServeOptions`.
pub struct OptionsModel {
    pub port: u16,
    pub host: Seq<char>,
    pub directory: Option<Seq<char>>,
    pub spa: bool,
    pub watch: bool,
}

impl View for ServeOptions {
    type V = OptionsModel;

    open spec fn view(&self) -> OptionsModel {
        OptionsModel {
            port: self.port,
            host: self.host@,
            directory: match self.directory {
                Some(d) => Some(d@),
                None => None,
            },
            spa: self.spa,
            watch: self.watch,
        }
    }
}

/// Why an argument list is rejected.
#[derive(Clone, Copy, PartialEq, Eq, Structural, Debug)]
pub enum OptionsError {
    /// An argument is not one of the known flags.
    UnknownFlag,
    /// A flag that takes a value stands last, with no value after it.
    MissingValue,
    /// The value given for the port is not a decimal number up to 65535.
    InvalidPort,
}

pub open spec fn is_digit(c: char) -> bool {
    '0' as int <= c as int <= '9' as int
}

pub open spec fn digit_value(c: char) -> nat {
    (c as int - '0' as int) as nat
}

pub open spec fn all_digits(s: Seq<char>) -> bool {
    forall|k: int| 0 <= k < s.len() ==> is_digit(s[k])
}

/// The value of a digit string read left to right into an accumulator.
pub open spec fn dec_rec(s: Seq<char>, acc: nat) -> nat
    decreases s.len(),
{
    if s.len() == 0 {
        acc
    } else {
        dec_rec(s.skip(1), acc * 10 + digit_value(s[0]))
    }
}

pub open spec fn dec_value(s: Seq<char>) -> nat {
    dec_rec(s, 0)
}

/// A port value: one or more decimal digits, worth at most 65535.
pub open spec fn is_valid_port(s: Seq<char>) -> bool {
    s.len() > 0 && all_digits(s) && dec_value(s) <= 65535
}

/// Reading more characters never lowers the accumulated value.
proof fn lemma_dec_rec_lower_bound(s: Seq<char>, acc: nat)
    ensures
        dec_rec(s, acc) >= acc,
    decreases s.len(),
{
    if s.len() > 0 {
        lemma_dec_rec_lower_bound(s.skip(1), acc * 10 + digit_value(s[0]));
    }
}

/// Parses a port value; `None` exactly when the text is not a port value.
pub fn parse_port(s: &str) -> (r: Option<u16>)
    ensures
        match r {
            Some(v) => is_valid_port(s@) && v == dec_value(s@),
            None => !is_valid_port(s@),
        },
{
    let n: usize = s.unicode_len();
    if n == 0 {
        return None;
    }
    let mut acc: u32 = 0;
    let mut i: usize = 0;
    proof {
        assert(s@.skip(0) =~= s@);
    }
    while i < n
        invariant
            i <= n,
            n == s@.len(),
            acc <= 65535,
            forall|k: int| 0 <= k < i ==> is_digit(s@[k]),
            dec_rec(s@.skip(i as int), acc as nat) == dec_value(s@),
        decreases n - i,
    {
        let c = s.get_char(i);
        let cv = c as u32;
        proof {
            assert(s@.skip(i as int)[0] == s@[i as int]);
            assert(s@.skip(i as int).skip(1) =~= s@.skip(i + 1 as int));
        }
        if cv < 48 || cv > 57 {
            proof {
                assert(!is_digit(s@[i as int]));
            }
            return None;
        }
        let d: u32 = cv - 48;
        proof {
            assert(is_digit(s@[i as int]));
            assert(d as nat == digit_value(s@[i as int]));
            assert(dec_rec(s@.skip(i as int), acc as nat) == dec_rec(
                s@.skip(i + 1 as int),
                (acc * 10 + d) as nat,
            ));
        }
        let acc2: u32 = acc * 10 + d;
        if acc2 > 65535 {
            proof {
                lemma_dec_rec_lower_bound(s@.skip(i + 1 as int), acc2 as nat);
                if all_digits(s@) {
                    assert(dec_value(s@) > 65535);
                }
            }
            return None;
        }
        acc = acc2;
        i = i + 1;
    }
    proof {
        assert(s@.skip(n as int) =~= Seq::<char>::empty());
        assert(all_digits(s@));
    }
    Some(acc as u16)
}

/// Parsing one argument after another into the configuration, beginning
/// from `cur`.  A flag that takes a value consumes the argument after it.
pub open spec fn spec_parse_rec(rest: Seq<Seq<char>>, cur: OptionsModel) -> Result<
    OptionsModel,
    OptionsError,
>
    decreases rest.len(),
{
    if rest.len() == 0 {
        Ok(cur)
    } else {
        let a = rest[0];
        if a == "--port"@ || a == "-p"@ {
            if rest.len() == 1 {
                Err(OptionsError::MissingValue)
            } else if !is_valid_port(rest[1]) {
                Err(OptionsError::InvalidPort)
            } else {
                spec_parse_rec(
                    rest.skip(2),
                    OptionsModel {
                        port: dec_value(rest[1]) as u16,
                        host: cur.host,
                        directory: cur.directory,
                        spa: cur.spa,
                        watch: cur.watch,
                    },
                )
            }
        } else if a == "--host"@ || a == "-h"@ {
            if rest.len() == 1 {
                Err(OptionsError::MissingValue)
            } else {
                spec_parse_rec(
                    rest.skip(2),
                    OptionsModel {
                        port: cur.port,
                        host: rest[1],
                        directory: cur.directory,
                        spa: cur.spa,
                        watch: cur.watch,
                    },
                )
            }
        } else if a == "--dir"@ || a == "-d"@ {
            if rest.len() == 1 {
                Err(OptionsError::MissingValue)
            } else {
                spec_parse_rec(
                    rest.skip(2),
                    OptionsModel {
                        port: cur.port,
                        host: cur.host,
                        directory: Some(rest[1]),
                        spa: cur.spa,
                        watch: cur.watch,
                    },
                )
            }
        } else if a == "--spa"@ {
            spec_parse_rec(
                rest.skip(1),
                OptionsModel {
                    port: cur.port,
                    host: cur.host,
                    directory: cur.directory,
                    spa: true,
                    watch: cur.watch,
                },
            )
        } else if a == "--watch"@ || a == "-w"@ {
            spec_parse_rec(
                rest.skip(1),
                OptionsModel {
                    port: cur.port,
                    host: cur.host,
                    directory: cur.directory,
                    spa: cur.spa,
                    watch: true,
                },
            )
        } else {
            Err(OptionsError::UnknownFlag)
        }
    }
}

/// The configuration before any flag is read.
pub open spec fn spec_default_options() -> OptionsModel {
    OptionsModel { port: 8080, host: "127.0.0.1"@, directory: None, spa: false, watch: false }
}

/// What an argument list parses to.  The first argument is the program's
/// name and is skipped.
pub open spec fn spec_parse(args: Seq<Seq<char>>) -> Result<OptionsModel, OptionsError> {
    if args.len() == 0 {
        spec_parse_rec(args, spec_default_options())
    } else {
        spec_parse_rec(args.skip(1), spec_default_options())
    }
}

impl ServeOptions {
    /// The configuration with no flags given.
    pub fn defaults() -> (o: ServeOptions)
        ensures
            o@ == spec_default_options(),
    {
        ServeOptions {
            port: 8080,
            host: String::from_str("127.0.0.1"),
            directory: None,
            spa: false,
            watch: false,
        }
    }

    /// Parses an argument list, the program's name first, into a
    /// configuration, or says why it is rejected.
    pub fn from_iter(args: &Vec<String>) -> (r: Result<ServeOptions, OptionsError>)
        ensures
            ({
                let sp = spec_parse(args.deep_view());
                match r {
                    Ok(o) => sp is Ok && o@ == sp->Ok_0,
                    Err(e) => sp is Err && e == sp->Err_0,
                }
            }),
    {
        let flag_port_long = String::from_str("--port");
        let flag_port_short = String::from_str("-p");
        let flag_host_long = String::from_str("--host");
        let flag_host_short = String::from_str("-h");
        let flag_dir_long = String::from_str("--dir");
        let flag_dir_short = String::from_str("-d");
        let flag_spa = String::from_str("--spa");
        let flag_watch_long = String::from_str("--watch");
        let flag_watch_short = String::from_str("-w");
        let mut opts = ServeOptions::defaults();
        let mut i: usize = if args.len() == 0 {
            0
        } else {
            1
        };
        proof {
            assert(args.deep_view().len() == args@.len());
            assert(args.deep_view().skip(0) =~= args.deep_view());
        }
        while i < args.len()
            invariant
                i <= args@.len(),
                spec_parse_rec(args.deep_view().skip(i as int), opts@) == spec_parse(
                    args.deep_view(),
                ),
                flag_port_long@ == "--port"@,
                flag_port_short@ == "-p"@,
                flag_host_long@ == "--host"@,
                flag_host_short@ == "-h"@,
                flag_dir_long@ == "--dir"@,
                flag_dir_short@ == "-d"@,
                flag_spa@ == "--spa"@,
                flag_watch_long@ == "--watch"@,
                flag_watch_short@ == "-w"@,
            decreases args@.len() - i,
        {
            let a: &String = &args[i];
            proof {
                assert(args.deep_view().len() == args@.len());
                assert(args.deep_view().skip(i as int)[0] == args.deep_view()[i as int]);
                assert(args.deep_view()[i as int] == args@[i as int]@);
                assert(args.deep_view().skip(i as int).skip(1) =~= args.deep_view().skip(
                    i + 1 as int,
                ));
                if i + 2 <= args@.len() {
                    assert(args.deep_view().skip(i as int).skip(2) =~= args.deep_view().skip(
                        i + 2 as int,
                    ));
                }
            }
            if *a == flag_port_long || *a == flag_port_short {
                if i + 1 >= args.len() {
                    return Err(OptionsError::MissingValue);
                }
                proof {
                    assert(args.deep_view().skip(i as int)[1] == args@[i + 1 as int]@);
                }
                match parse_port(args[i + 1].as_str()) {
                    None => {
                        return Err(OptionsError::InvalidPort);
                    },
                    Some(p) => {
                        opts.port = p;
                    },
                }
                i = i + 2;
            } else if *a == flag_host_long || *a == flag_host_short {
                if i + 1 >= args.len() {
                    return Err(OptionsError::MissingValue);
                }
                proof {
                    assert(args.deep_view().skip(i as int)[1] == args@[i + 1 as int]@);
                }
                opts.host = args[i + 1].clone();
                i = i + 2;
            } else if *a == flag_dir_long || *a == flag_dir_short {
                if i + 1 >= args.len() {
                    return Err(OptionsError::MissingValue);
                }
                proof {
                    assert(args.deep_view().skip(i as int)[1] == args@[i + 1 as int]@);
                }
                opts.directory = Some(args[i + 1].clone());
                i = i + 2;
            } else if *a == flag_spa {
                opts.spa = true;
                i = i + 1;
            } else if *a == flag_watch_long || *a == flag_watch_short {
                opts.watch = true;
                i = i + 1;
            } else {
                return Err(OptionsError::UnknownFlag);
            }
        }
        proof {
            assert(args.deep_view().skip(args@.len() as int) =~= Seq::<Seq<char>>::empty());
        }
        Ok(opts)
    }
}

} // verus!
