//! The command line of the controller.

use crate::outside::{
    accepts_directive, accepts_filter, directive_accepted, directive_safe, filter_accepted,
    filter_safe,
};
use crate::text::{
    chars_of, is_ascii, is_white_space, opt_text, pieces, split_on, str_eq, strip_prefix, texts,
};
use vstd::prelude::*;
use vstd::string::*;

verus! {

/// How much is logged.
#[derive(Debug)]
pub struct LoggingParams {
    pub base_level: String,
    pub http_level: Option<String>,
    pub kube_level: Option<String>,
}

/// How much is logged.
#[verifier::ext_equal]
pub struct LoggingView {
    pub base_level: Seq<char>,
    pub http_level: Option<Seq<char>>,
    pub kube_level: Option<Seq<char>>,
}

impl View for LoggingParams {
    type V = LoggingView;

    open spec fn view(&self) -> LoggingView {
        LoggingView {
            base_level: self.base_level@,
            http_level: opt_text(self.http_level),
            kube_level: opt_text(self.kube_level),
        }
    }
}

/// What is left of a text after a prefix that it begins with.
pub open spec fn after_prefix(s: Seq<char>, prefix: Seq<char>) -> Option<Seq<char>> {
    if prefix.is_prefix_of(s) {
        Some(s.skip(prefix.len() as int))
    } else {
        None
    }
}

impl LoggingView {
    /// With one more argument.
    pub open spec fn with(self, arg: Seq<char>) -> Result<LoggingView, Seq<char>> {
        if arg == "--debug"@ {
            Ok(LoggingView { base_level: "debug"@, ..self })
        } else {
            match after_prefix(arg, "--http_log="@) {
                Some(level) => Ok(LoggingView { http_level: Some(level), ..self }),
                None => match after_prefix(arg, "--kube_log="@) {
                    Some(level) => Ok(LoggingView { kube_level: Some(level), ..self }),
                    None => Err("Unexpected argument: "@ + arg),
                },
            }
        }
    }
}

/// What some arguments ask for, or what is wrong with the first that is not
/// known.
pub open spec fn parsed(args: Seq<Seq<char>>) -> Result<LoggingView, Seq<char>>
    decreases args.len(),
{
    if args.len() == 0 {
        Ok(LoggingView { base_level: "info"@, http_level: None, kube_level: None })
    } else {
        match parsed(args.drop_last()) {
            Ok(before) => before.with(args.last()),
            Err(words) => Err(words),
        }
    }
}

proof fn lemma_first_fault(args: Seq<Seq<char>>, n: int)
    requires
        0 <= n <= args.len(),
        parsed(args.take(n)) is Err,
    ensures
        parsed(args) == parsed(args.take(n)),
    decreases args.len(),
{
    if n == args.len() {
        assert(args.take(n) =~= args);
    } else {
        assert(args.drop_last().take(n) =~= args.take(n));
        lemma_first_fault(args.drop_last(), n);
    }
}

/// Parses command-line arguments to determine logging levels.  The first is the
/// name of the program.
pub fn parse_args(args: &Vec<String>) -> (r: Result<LoggingParams, String>)
    requires
        args@.len() > 0,
    ensures
        match r {
            Ok(params) => parsed(texts(args@).skip(1)) == Ok::<LoggingView, Seq<char>>(params@),
            Err(words) => parsed(texts(args@).skip(1)) == Err::<LoggingView, Seq<char>>(words@),
        },
{
    let mut params = LoggingParams {
        base_level: "info".to_owned(),
        http_level: None,
        kube_level: None,
    };
    let ghost all = texts(args@).skip(1);
    let mut i: usize = 1;
    while i < args.len()
        invariant
            1 <= i <= args@.len(),
            all == texts(args@).skip(1),
            parsed(all.take(i - 1)) == Ok::<LoggingView, Seq<char>>(params@),
        decreases args@.len() - i,
    {
        let arg = args[i].as_str();
        proof {
            assert(all.take(i as int).drop_last() =~= all.take(i - 1));
            assert(all.take(i as int).last() == arg@);
        }
        if str_eq(arg, "--debug") {
            params.base_level = "debug".to_owned();
        } else {
            match strip_prefix(arg, "--http_log=") {
                Some(level) => {
                    params.http_level = Some(level);
                },
                None => match strip_prefix(arg, "--kube_log=") {
                    Some(level) => {
                        params.kube_level = Some(level);
                    },
                    None => {
                        proof {
                            lemma_first_fault(all, i as int);
                        }
                        return Err("Unexpected argument: ".to_owned().concat(arg));
                    },
                },
            }
        }
        i = i + 1;
    }
    assert(all.take(i - 1) =~= all);
    Ok(params)
}

/// What is logged of the parts that a level is given for.
pub open spec fn directives_of(params: LoggingView) -> Seq<Seq<char>> {
    (match params.http_level {
        Some(level) => seq!["hyper="@ + level, "hyper_util="@ + level, "tower="@ + level],
        None => Seq::empty(),
    }) + (match params.kube_level {
        Some(level) => seq!["kube="@ + level],
        None => Seq::empty(),
    })
}

/// The directives to add to the filter for the base level.
pub fn directives(params: &LoggingParams) -> (r: Vec<String>)
    ensures
        texts(r@) == directives_of(params@),
{
    let mut r: Vec<String> = Vec::new();
    match &params.http_level {
        Some(level) => {
            r.push("hyper=".to_owned().concat(level.as_str()));
            r.push("hyper_util=".to_owned().concat(level.as_str()));
            r.push("tower=".to_owned().concat(level.as_str()));
        },
        None => {},
    }
    match &params.kube_level {
        Some(level) => {
            r.push("kube=".to_owned().concat(level.as_str()));
        },
        None => {},
    }
    assert(texts(r@) =~= directives_of(params@));
    r
}

/// What is logged.
#[derive(Debug)]
pub enum LogFilter {
    /// What this text says, and nothing else.
    Given(String),
    /// A level for all, and directives for some parts.
    Levels(String, Vec<String>),
}

/// What is to be logged: what `RUST_LOG` says, where it is set and could be read
/// as a filter, else what the command line asks for.
pub fn log_filter(rust_log: Option<String>, accepted: bool, params: &LoggingParams) -> (r: LogFilter)
    ensures
        match r {
            LogFilter::Given(text) => accepted && rust_log == Some(text),
            LogFilter::Levels(base, list) => (rust_log is None || !accepted) && base@
                == params@.base_level && texts(list@) == directives_of(params@),
        },
{
    match rust_log {
        Some(text) if accepted => LogFilter::Given(text),
        _ => LogFilter::Levels(params.base_level.clone(), directives(params)),
    }
}

/// The first of some directives that is none.
pub open spec fn first_refused(list: Seq<Seq<char>>) -> Option<Seq<char>>
    decreases list.len(),
{
    if list.len() == 0 {
        None
    } else if !directive_accepted(list[0]) {
        Some(list[0])
    } else {
        first_refused(list.drop_first())
    }
}

/// Whether a text can be read as a filter without fail.
pub fn is_filter_safe(text: &str) -> (r: bool)
    ensures
        r == filter_safe(text@),
{
    proof {
        reveal_strlit(",");
    }
    let list = split_on(text, ",");
    let ghost all = pieces(text@, ","@, 0);
    let mut i: usize = 0;
    while i < list.len()
        invariant
            i <= list@.len(),
            texts(list@) == all,
            all == pieces(text@, ","@, 0),
            forall|j: int| 0 <= j < i ==> directive_safe(#[trigger] all[j]),
        decreases list@.len() - i,
    {
        let directive = list[i].as_str();
        assert(directive@ == all[i as int]);
        if !is_ascii(directive) {
            let chars = chars_of(directive);
            assert(directive@.len() > 0);
            if is_white_space(chars[0]) {
                assert(!directive_safe(all[i as int]));
                return false;
            }
        }
        i = i + 1;
    }
    true
}

proof fn lemma_directives_are_safe(params: LoggingView, i: int)
    requires
        0 <= i < directives_of(params).len(),
    ensures
        directive_safe(directives_of(params)[i]),
{
    reveal_strlit("hyper=");
    reveal_strlit("hyper_util=");
    reveal_strlit("tower=");
    reveal_strlit("kube=");
    let text = directives_of(params)[i];
    assert(text[0] == 'h' || text[0] == 't' || text[0] == 'k');
}

/// Works out what is to be logged, by what `RUST_LOG` says, if it is set, and by
/// the command line.  Where a level of the command line is none, tells the
/// directive that it makes.
pub fn setup_logging(rust_log: Option<String>, params: &LoggingParams) -> (r: Result<
    LogFilter,
    String,
>)
    requires
        rust_log matches Some(text) ==> filter_safe(text@),
    ensures
        match r {
            Err(directive) => first_refused(directives_of(params@)) == Some(directive@),
            Ok(LogFilter::Given(text)) => first_refused(directives_of(params@)) is None && rust_log
                == Some(text) && filter_accepted(text@),
            Ok(LogFilter::Levels(base, list)) => {
                &&& first_refused(directives_of(params@)) is None
                &&& rust_log matches Some(text) ==> !filter_accepted(text@)
                &&& base@ == params@.base_level
                &&& texts(list@) == directives_of(params@)
            },
        },
{
    let list = directives(params);
    let ghost all = directives_of(params@);
    let mut i: usize = 0;
    assert(all.skip(0) =~= all);
    while i < list.len()
        invariant
            i <= list@.len(),
            texts(list@) == all,
            all == directives_of(params@),
            first_refused(all) == first_refused(all.skip(i as int)),
        decreases list@.len() - i,
    {
        let directive = list[i].as_str();
        proof {
            assert(directive@ == all[i as int]);
            lemma_directives_are_safe(params@, i as int);
            assert(all.skip(i as int)[0] == all[i as int]);
            assert(all.skip(i as int).drop_first() =~= all.skip(i + 1));
        }
        if !accepts_directive(directive) {
            return Err(list[i].clone());
        }
        i = i + 1;
    }
    assert(all.skip(i as int).len() == 0);
    let accepted = match &rust_log {
        Some(text) => accepts_filter(text.as_str()),
        None => false,
    };
    Ok(log_filter(rust_log, accepted, params))
}

/// How many threads to work with, where the machine has so many cores, if that
/// is known: one for each, and at least two.
pub fn worker_threads(cores: Option<usize>) -> (r: usize)
    ensures
        r == (match cores {
            Some(n) => if n > 2 {
                n
            } else {
                2
            },
            None => 2,
        }),
        r >= 2,
        cores matches Some(n) ==> r >= n,
        r == 2 || cores == Some(r),
{
    let n: usize = match cores {
        Some(n) => n,
        None => 1,
    };
    if n > 2 {
        n
    } else {
        2
    }
}

/// What comes after a prefix is what was put there, and nothing comes after one
/// that a text does not begin with.
pub proof fn prefixes_are_taken_off(prefix: Seq<char>, rest: Seq<char>, s: Seq<char>)
    ensures
        after_prefix(prefix + rest, prefix) == Some(rest),
        after_prefix(s, prefix) == Some(rest) <==> s == prefix + rest,
        after_prefix(s, prefix) is None <==> !prefix.is_prefix_of(s),
{
    assert((prefix + rest).skip(prefix.len() as int) =~= rest);
    if prefix.is_prefix_of(s) {
        assert(s =~= prefix + s.skip(prefix.len() as int));
    }
}

/// Whether an argument is one of those that the command line may hold.
pub open spec fn is_known(arg: Seq<char>) -> bool {
    arg == "--debug"@ || "--http_log="@.is_prefix_of(arg) || "--kube_log="@.is_prefix_of(arg)
}

/// Each argument says what is logged of one part, and leaves the others alone.
pub proof fn arguments_set_their_part(m: LoggingView, level: Seq<char>)
    ensures
        ({
            let debug = m.with("--debug"@);
            let http = m.with("--http_log="@ + level);
            let kube = m.with("--kube_log="@ + level);
            &&& debug is Ok && http is Ok && kube is Ok
            &&& debug->Ok_0.base_level == "debug"@
            &&& debug->Ok_0.http_level == m.http_level
            &&& debug->Ok_0.kube_level == m.kube_level
            &&& http->Ok_0.http_level == Some(level)
            &&& http->Ok_0.base_level == m.base_level
            &&& http->Ok_0.kube_level == m.kube_level
            &&& kube->Ok_0.kube_level == Some(level)
            &&& kube->Ok_0.base_level == m.base_level
            &&& kube->Ok_0.http_level == m.http_level
        }),
{
    reveal_strlit("--debug");
    reveal_strlit("--http_log=");
    reveal_strlit("--kube_log=");
    prefixes_are_taken_off("--http_log="@, level, "--http_log="@ + level);
    prefixes_are_taken_off("--kube_log="@, level, "--kube_log="@ + level);
    assert(("--http_log="@ + level)[2] == 'h');
    assert(("--kube_log="@ + level)[2] == 'k');
    assert("--debug"@[2] == 'd');
    assert("--http_log="@[2] == 'h');
}

/// An argument that is not known is refused, and named last in what is said of it;
/// one that is known is not.
pub proof fn unknown_arguments_are_refused(m: LoggingView, arg: Seq<char>)
    ensures
        m.with(arg) is Ok <==> is_known(arg),
        !is_known(arg) ==> m.with(arg) is Err && arg.is_suffix_of(m.with(arg)->Err_0)
            && "Unexpected argument: "@.is_prefix_of(m.with(arg)->Err_0) && m.with(arg)->Err_0.len()
            == "Unexpected argument: "@.len() + arg.len(),
{
    if !is_known(arg) {
        let words = "Unexpected argument: "@ + arg;
        assert(words.subrange(words.len() - arg.len(), words.len() as int) =~= arg);
    }
}

/// Without arguments as much is logged as is worth knowing, of all parts alike.
/// A further argument is heeded after those before it, and the first that is not
/// known is the fault, whatever comes after.
pub proof fn arguments_are_heeded_in_turn(args: Seq<Seq<char>>, arg: Seq<char>, more: Seq<Seq<char>>)
    ensures
        parsed(Seq::empty()) is Ok,
        parsed(Seq::empty())->Ok_0.base_level == "info"@,
        parsed(Seq::empty())->Ok_0.http_level is None,
        parsed(Seq::empty())->Ok_0.kube_level is None,
        parsed(args) matches Ok(m) ==> parsed(args.push(arg)) == m.with(arg),
        parsed(args) is Ok && !is_known(arg) ==> parsed(args.push(arg) + more) is Err
            && arg.is_suffix_of(parsed(args.push(arg) + more)->Err_0),
{
    assert(args.push(arg).drop_last() =~= args);
    if parsed(args) is Ok {
        unknown_arguments_are_refused(parsed(args)->Ok_0, arg);
        if !is_known(arg) {
            let all = args.push(arg) + more;
            assert(all.take(args.len() as int + 1) =~= args.push(arg));
            lemma_first_fault(all, args.len() as int + 1);
        }
    }
}

/// Arguments are accepted exactly where each of them is known.
pub proof fn known_arguments_are_accepted(args: Seq<Seq<char>>)
    ensures
        parsed(args) is Ok <==> forall|i: int| 0 <= i < args.len() ==> is_known(#[trigger] args[i]),
    decreases args.len(),
{
    if args.len() > 0 {
        let before = args.drop_last();
        known_arguments_are_accepted(before);
        if parsed(before) is Ok {
            unknown_arguments_are_refused(parsed(before)->Ok_0, args.last());
            assert forall|i: int| is_known(args.last()) && 0 <= i < args.len() implies is_known(
                #[trigger] args[i],
            ) by {
                if i < before.len() {
                    assert(is_known(before[i]));
                }
            }
            assert(args.last() == args[args.len() - 1]);
        } else {
            let i = choose|i: int| 0 <= i < before.len() && !is_known(#[trigger] before[i]);
            assert(before[i] == args[i]);
        }
    }
}

/// A level for requests is one for each of the three parts that make them, and one
/// for the cluster is one for its part; a part that no level is given for has no
/// directive.
pub proof fn levels_become_directives(params: LoggingView, http: Seq<char>, kube: Seq<char>)
    ensures
        ({
            let list = directives_of(params);
            &&& params.http_level is None && params.kube_level is None ==> list.len() == 0
            &&& params.http_level == Some(http) ==> {
                &&& list.len() >= 3
                &&& list[0] == "hyper="@ + http
                &&& list[1] == "hyper_util="@ + http
                &&& list[2] == "tower="@ + http
            }
            &&& params.kube_level == Some(kube) ==> list.len() > 0 && list.last() == "kube="@ + kube
            &&& list.len() == (if params.http_level is Some {
                3int
            } else {
                0
            }) + (if params.kube_level is Some {
                1int
            } else {
                0
            })
        }),
{
}

/// The directive that is told is one of the list that is refused, and all before
/// it are accepted; none is told exactly where all are.
pub proof fn the_first_refusal_is_told(list: Seq<Seq<char>>) -> (at: int)
    ensures
        first_refused(list) is None <==> forall|i: int|
            0 <= i < list.len() ==> directive_accepted(#[trigger] list[i]),
        first_refused(list) matches Some(directive) ==> 0 <= at < list.len() && list[at]
            == directive && !directive_accepted(directive) && forall|i: int|
            0 <= i < at ==> directive_accepted(#[trigger] list[i]),
    decreases list.len(),
{
    if list.len() == 0 || !directive_accepted(list[0]) {
        0
    } else {
        let rest = list.drop_first();
        let at = the_first_refusal_is_told(rest);
        assert(forall|i: int| 0 <= i < rest.len() ==> rest[i] == #[trigger] list[i + 1]);
        assert forall|i: int|
            first_refused(list) is None && 0 <= i < list.len() implies directive_accepted(
            #[trigger] list[i],
        ) by {
            if i > 0 {
                assert(directive_accepted(rest[i - 1]));
            }
        }
        assert forall|i: int|
            first_refused(list) is Some && 0 <= i < at + 1 implies directive_accepted(
            #[trigger] list[i],
        ) by {
            if i > 0 {
                assert(directive_accepted(rest[i - 1]));
            }
        }
        if first_refused(list) is Some {
            assert(rest[at] == list[at + 1]);
        }
        at + 1
    }
}

} // verus!
