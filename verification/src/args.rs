use vstd::prelude::*;
use crate::numfmt::{all_digits, parse_usize, spec_dec_val};
use crate::strutil::{lemma_vec_string_deep_view, push_char, str_eq};

verus! {

/// The configuration the pipeline runs with: the tokens to look up, in the
/// order they were supplied, an optional proxy URL, the verbosity flag, an
/// optional output path, and a thread count that is carried but drives no
/// parallelism.
pub struct Config {
    pub tokens: Vec<String>,
    pub proxy: Option<String>,
    pub verbosity: bool,
    pub output: Option<String>,
    pub num_threads: usize,
}

/// A configuration always holds at least one token, every token is a
/// non-empty string, and the thread count is positive.
pub open spec fn config_wf(c: Config) -> bool {
    &&& c.tokens@.len() > 0
    &&& forall|i: int| 0 <= i < c.tokens@.len() ==> c.tokens@[i]@.len() > 0
    &&& c.num_threads > 0
}

/// The state the argument interpreter threads through the argument list.
pub ghost struct ArgState {
    pub tokens: Seq<String>,
    pub token_file: Option<String>,
    pub proxy: Option<String>,
    pub verbosity: bool,
    pub output: Option<String>,
    pub num_threads: int,
}

/// What interpreting the argument list ends in: collected options, a help
/// request, or an unrecognized argument.
pub ghost enum ArgSpecOutcome {
    Options(ArgState),
    Help,
    Unknown(String),
}

/// The interpreter's starting state: no tokens, no proxy, no output, quiet,
/// four threads.
pub open spec fn init_arg_state() -> ArgState {
    ArgState {
        tokens: Seq::empty(),
        token_file: None,
        proxy: None,
        verbosity: false,
        output: None,
        num_threads: 4,
    }
}

/// The thread count named by a flag value: its decimal value when it is a
/// positive one that fits the machine word, the default of four otherwise.
pub open spec fn spec_threads_val(s: Seq<char>) -> int {
    if s.len() > 0 && all_digits(s) && 0 < spec_dec_val(s) <= usize::MAX as int {
        spec_dec_val(s)
    } else {
        4
    }
}

/// One step at a time, what the argument list means: `-t`/`--token` collects
/// following arguments as tokens until one starts with a dash; `-tf`, `-p`,
/// `-o` and `-n` consume the following argument as their value; `-v` sets
/// verbosity; `-h` asks for help; anything else is unrecognized. A flag at
/// the end of the list with no value following simply ends interpretation.
pub open spec fn spec_interpret(
    args: Seq<String>,
    i: int,
    collecting: bool,
    st: ArgState,
) -> ArgSpecOutcome
    decreases args.len() - i, (if collecting { 1int } else { 0int }),
{
    if i < 0 || i >= args.len() {
        ArgSpecOutcome::Options(st)
    } else if collecting {
        if args[i]@.len() > 0 && args[i]@[0] == '-' {
            spec_interpret(args, i, false, st)
        } else {
            spec_interpret(
                args,
                i + 1,
                true,
                ArgState { tokens: st.tokens.push(args[i]), ..st },
            )
        }
    } else if args[i]@ == "-t"@ || args[i]@ == "--token"@ {
        spec_interpret(args, i + 1, true, st)
    } else if args[i]@ == "-tf"@ || args[i]@ == "--token-file"@ {
        if i + 1 < args.len() {
            spec_interpret(args, i + 2, false, ArgState { token_file: Some(args[i + 1]), ..st })
        } else {
            ArgSpecOutcome::Options(st)
        }
    } else if args[i]@ == "-v"@ || args[i]@ == "--verbosity"@ {
        spec_interpret(args, i + 1, false, ArgState { verbosity: true, ..st })
    } else if args[i]@ == "-p"@ || args[i]@ == "--proxy"@ {
        if i + 1 < args.len() {
            spec_interpret(args, i + 2, false, ArgState { proxy: Some(args[i + 1]), ..st })
        } else {
            ArgSpecOutcome::Options(st)
        }
    } else if args[i]@ == "-o"@ || args[i]@ == "--output"@ {
        if i + 1 < args.len() {
            spec_interpret(args, i + 2, false, ArgState { output: Some(args[i + 1]), ..st })
        } else {
            ArgSpecOutcome::Options(st)
        }
    } else if args[i]@ == "-n"@ || args[i]@ == "--threads"@ {
        if i + 1 < args.len() {
            spec_interpret(
                args,
                i + 2,
                false,
                ArgState { num_threads: spec_threads_val(args[i + 1]@), ..st },
            )
        } else {
            ArgSpecOutcome::Options(st)
        }
    } else if args[i]@ == "-h"@ || args[i]@ == "--help"@ {
        ArgSpecOutcome::Help
    } else {
        ArgSpecOutcome::Unknown(args[i])
    }
}

/// The options collected from the argument list.
pub struct ParsedArgs {
    pub tokens: Vec<String>,
    pub token_file: Option<String>,
    pub proxy: Option<String>,
    pub verbosity: bool,
    pub output: Option<String>,
    pub num_threads: usize,
}

/// The interpreter state a collected-options value stands for.
pub open spec fn parsed_state(p: ParsedArgs) -> ArgState {
    ArgState {
        tokens: p.tokens@,
        token_file: p.token_file,
        proxy: p.proxy,
        verbosity: p.verbosity,
        output: p.output,
        num_threads: p.num_threads as int,
    }
}

/// What interpreting the argument list ended in.
pub enum ArgOutcome {
    Options(ParsedArgs),
    Help,
    Unknown(String),
}

/// Interprets the command-line arguments (the program name already removed).
pub fn interpret_args(args: &Vec<String>) -> (r: ArgOutcome)
    ensures
        match r {
            ArgOutcome::Options(p) => spec_interpret(args@, 0, false, init_arg_state())
                == ArgSpecOutcome::Options(parsed_state(p)),
            ArgOutcome::Help => spec_interpret(args@, 0, false, init_arg_state())
                == ArgSpecOutcome::Help,
            ArgOutcome::Unknown(a) => spec_interpret(args@, 0, false, init_arg_state())
                == ArgSpecOutcome::Unknown(a),
        },
{
    let n = args.len();
    let mut tokens: Vec<String> = Vec::new();
    let mut token_file: Option<String> = None;
    let mut proxy: Option<String> = None;
    let mut verbosity = false;
    let mut output: Option<String> = None;
    let mut num_threads: usize = 4;
    let mut collecting = false;
    let mut i: usize = 0;
    while i < n
        invariant
            n == args@.len(),
            i <= n,
            spec_interpret(args@, 0, false, init_arg_state()) == spec_interpret(
                args@,
                i as int,
                collecting,
                ArgState {
                    tokens: tokens@,
                    token_file,
                    proxy,
                    verbosity,
                    output,
                    num_threads: num_threads as int,
                },
            ),
        decreases n - i, (if collecting { 1int } else { 0int }),
    {
        let a = &args[i];
        if collecting {
            if !a.as_str().is_empty() && a.as_str().get_char(0) == '-' {
                collecting = false;
            } else {
                tokens.push(a.clone());
                i = i + 1;
            }
        } else if str_eq(a.as_str(), "-t") || str_eq(a.as_str(), "--token") {
            collecting = true;
            i = i + 1;
        } else if str_eq(a.as_str(), "-tf") || str_eq(a.as_str(), "--token-file") {
            if i + 1 < n {
                token_file = Some(args[i + 1].clone());
                i = i + 2;
            } else {
                i = i + 1;
            }
        } else if str_eq(a.as_str(), "-v") || str_eq(a.as_str(), "--verbosity") {
            verbosity = true;
            i = i + 1;
        } else if str_eq(a.as_str(), "-p") || str_eq(a.as_str(), "--proxy") {
            if i + 1 < n {
                proxy = Some(args[i + 1].clone());
                i = i + 2;
            } else {
                i = i + 1;
            }
        } else if str_eq(a.as_str(), "-o") || str_eq(a.as_str(), "--output") {
            if i + 1 < n {
                output = Some(args[i + 1].clone());
                i = i + 2;
            } else {
                i = i + 1;
            }
        } else if str_eq(a.as_str(), "-n") || str_eq(a.as_str(), "--threads") {
            if i + 1 < n {
                num_threads = match parse_usize(args[i + 1].as_str()) {
                    Some(v) => if v > 0 {
                        v
                    } else {
                        4
                    },
                    None => 4,
                };
                i = i + 2;
            } else {
                i = i + 1;
            }
        } else if str_eq(a.as_str(), "-h") || str_eq(a.as_str(), "--help") {
            return ArgOutcome::Help;
        } else {
            return ArgOutcome::Unknown(a.clone());
        }
    }
    ArgOutcome::Options(
        ParsedArgs { tokens, token_file, proxy, verbosity, output, num_threads },
    )
}

/// The usage text, line by line.
pub open spec fn spec_help_lines() -> Seq<Seq<char>> {
    seq![
        "Usage: your_app_name [OPTIONS]"@,
        ""@,
        "Options:"@,
        "  -t, --token <TOKENS>      Specify one or more tokens"@,
        "  -tf, --token-file <FILE>  Specify a file containing tokens"@,
        "  -v, --verbosity           Enable verbosity"@,
        "  -p, --proxy <URL>         Specify a proxy URL"@,
        "  -o, --output <FILE>       Specify an output file"@,
        "  -n, --threads <NUMBER>    Specify the number of threads (default: 4)"@,
        "  -h, --help                Display this help message"@,
    ]
}

/// The usage text that a help request prints, line by line.
pub fn help_lines() -> (r: Vec<&'static str>)
    ensures
        r@.len() == spec_help_lines().len(),
        forall|i: int| 0 <= i < r@.len() ==> r@[i]@ == spec_help_lines()[i],
{
    let mut v: Vec<&'static str> = Vec::new();
    v.push("Usage: your_app_name [OPTIONS]");
    v.push("");
    v.push("Options:");
    v.push("  -t, --token <TOKENS>      Specify one or more tokens");
    v.push("  -tf, --token-file <FILE>  Specify a file containing tokens");
    v.push("  -v, --verbosity           Enable verbosity");
    v.push("  -p, --proxy <URL>         Specify a proxy URL");
    v.push("  -o, --output <FILE>       Specify an output file");
    v.push("  -n, --threads <NUMBER>    Specify the number of threads (default: 4)");
    v.push("  -h, --help                Display this help message");
    v
}

/// The lines of a text, split at `\n` or `\r\n`, with no trailing empty line
/// after a final line ending.
pub open spec fn spec_lines(s: Seq<char>) -> Seq<Seq<char>>
    decreases s.len(),
{
    if s.len() == 0 {
        Seq::empty()
    } else if s[0] == '\n' {
        seq![Seq::<char>::empty()] + spec_lines(s.drop_first())
    } else if s[0] == '\r' && s.len() >= 2 && s[1] == '\n' {
        seq![Seq::<char>::empty()] + spec_lines(s.skip(2))
    } else {
        let rest = spec_lines(s.drop_first());
        if rest.len() == 0 {
            seq![seq![s[0]]]
        } else {
            seq![seq![s[0]] + rest[0]] + rest.drop_first()
        }
    }
}

/// The lines of a text with an unfinished first line `cur` in front of it.
pub open spec fn prepend_first(cur: Seq<char>, ls: Seq<Seq<char>>) -> Seq<Seq<char>> {
    if ls.len() == 0 {
        if cur.len() == 0 {
            Seq::empty()
        } else {
            seq![cur]
        }
    } else {
        seq![cur + ls[0]] + ls.drop_first()
    }
}

/// The nonempty lines, in order.
pub open spec fn keep_nonempty(ls: Seq<Seq<char>>) -> Seq<Seq<char>>
    decreases ls.len(),
{
    if ls.len() == 0 {
        Seq::empty()
    } else {
        (if ls[0].len() > 0 {
            seq![ls[0]]
        } else {
            Seq::<Seq<char>>::empty()
        }) + keep_nonempty(ls.drop_first())
    }
}

/// The tokens a file contributes: one per non-empty line, in file order.
pub open spec fn spec_file_tokens(s: Seq<char>) -> Seq<Seq<char>> {
    keep_nonempty(spec_lines(s))
}

proof fn lemma_keep_nonempty_push(ls: Seq<Seq<char>>, l: Seq<char>)
    ensures
        keep_nonempty(ls.push(l)) == keep_nonempty(ls) + (if l.len() > 0 {
            seq![l]
        } else {
            Seq::<Seq<char>>::empty()
        }),
    decreases ls.len(),
{
    if ls.len() == 0 {
        assert(ls.push(l)[0] == l);
        assert(ls.push(l).drop_first() =~= Seq::<Seq<char>>::empty());
        assert(keep_nonempty(Seq::<Seq<char>>::empty()) == Seq::<Seq<char>>::empty());
        assert(keep_nonempty(ls.push(l)) =~= keep_nonempty(ls) + (if l.len() > 0 {
            seq![l]
        } else {
            Seq::<Seq<char>>::empty()
        }));
    } else {
        assert(ls.push(l)[0] == ls[0]);
        assert(ls.push(l).drop_first() =~= ls.drop_first().push(l));
        lemma_keep_nonempty_push(ls.drop_first(), l);
        assert(keep_nonempty(ls.push(l)) =~= keep_nonempty(ls) + (if l.len() > 0 {
            seq![l]
        } else {
            Seq::<Seq<char>>::empty()
        }));
    }
}

/// Splits a text into its lines.
fn split_lines(content: &str) -> (r: Vec<String>)
    ensures
        r.deep_view() == spec_lines(content@),
{
    let n = content.unicode_len();
    let mut done: Vec<String> = Vec::new();
    let mut cur = String::new();
    let mut i: usize = 0;
    proof {
        assert(content@.skip(0) =~= content@);
        assert(done.deep_view() =~~= Seq::<Seq<char>>::empty());
        assert(spec_lines(content@) =~~= done.deep_view() + prepend_first(
            cur@,
            spec_lines(content@),
        ));
    }
    while i < n
        invariant
            n == content@.len(),
            i <= n,
            spec_lines(content@) =~~= done.deep_view() + prepend_first(
                cur@,
                spec_lines(content@.skip(i as int)),
            ),
        decreases n - i,
    {
        let c = content.get_char(i);
        proof {
            lemma_vec_string_deep_view(done);
            assert(content@.skip(i as int)[0] == content@[i as int]);
            assert(content@.skip(i as int).drop_first() =~= content@.skip(i + 1));
            if i + 1 < n {
                assert(content@.skip(i as int)[1] == content@[i + 1]);
                assert(content@.skip(i as int).skip(2) =~= content@.skip(i + 2));
            }
        }
        if c == '\n' {
            done.push(cur);
            cur = String::new();
            proof {
                lemma_vec_string_deep_view(done);
                assert(spec_lines(content@) =~~= done.deep_view() + prepend_first(
                    cur@,
                    spec_lines(content@.skip(i + 1)),
                ));
            }
            i = i + 1;
        } else if c == '\r' && i + 1 < n && content.get_char(i + 1) == '\n' {
            done.push(cur);
            cur = String::new();
            proof {
                lemma_vec_string_deep_view(done);
                assert(spec_lines(content@) =~~= done.deep_view() + prepend_first(
                    cur@,
                    spec_lines(content@.skip(i + 2)),
                ));
            }
            i = i + 2;
        } else {
            push_char(&mut cur, c);
            proof {
                assert(spec_lines(content@) =~~= done.deep_view() + prepend_first(
                    cur@,
                    spec_lines(content@.skip(i + 1)),
                ));
            }
            i = i + 1;
        }
    }
    proof {
        assert(content@.skip(n as int) =~= Seq::<char>::empty());
    }
    if !cur.as_str().is_empty() {
        done.push(cur);
        proof {
            lemma_vec_string_deep_view(done);
            assert(done.deep_view() =~~= spec_lines(content@));
        }
    } else {
        proof {
            assert(done.deep_view() =~~= spec_lines(content@));
        }
    }
    done
}

/// Reads the tokens a token file contributes: one per non-empty line, in
/// file order.
pub fn split_tokens_from_file(content: &str) -> (r: Vec<String>)
    ensures
        r.deep_view() == spec_file_tokens(content@),
{
    let lines = split_lines(content);
    let n = lines.len();
    let mut r: Vec<String> = Vec::new();
    let mut i: usize = 0;
    proof {
        assert(lines.deep_view().take(0) =~= Seq::<Seq<char>>::empty());
        assert(keep_nonempty(Seq::<Seq<char>>::empty()) == Seq::<Seq<char>>::empty());
        assert(r.deep_view() =~~= keep_nonempty(lines.deep_view().take(0)));
    }
    while i < n
        invariant
            n == lines@.len(),
            lines.deep_view().len() == n,
            i <= n,
            lines.deep_view() == spec_lines(content@),
            forall|j: int| 0 <= j < n ==> lines.deep_view()[j] == lines@[j]@,
            r.deep_view() =~~= keep_nonempty(lines.deep_view().take(i as int)),
        decreases n - i,
    {
        proof {
            assert(lines.deep_view().take(i + 1) =~= lines.deep_view().take(i as int).push(
                lines.deep_view()[i as int],
            ));
            lemma_keep_nonempty_push(lines.deep_view().take(i as int), lines.deep_view()[i as int]);
        }
        let line = &lines[i];
        if !line.as_str().is_empty() {
            let ghost prev = r.deep_view();
            r.push(line.clone());
            proof {
                lemma_vec_string_deep_view(r);
                assert(r.deep_view() =~~= prev.push(lines@[i as int]@));
                assert(r.deep_view() =~~= keep_nonempty(lines.deep_view().take(i + 1)));
            }
        } else {
            proof {
                assert(r.deep_view() =~~= keep_nonempty(lines.deep_view().take(i + 1)));
            }
        }
        i = i + 1;
    }
    proof {
        assert(lines.deep_view().take(n as int) =~= lines.deep_view());
    }
    r
}

/// True when some element of the list is a non-empty string.
pub open spec fn has_nonempty(s: Seq<String>) -> bool {
    exists|i: int| 0 <= i < s.len() && s[i]@.len() > 0
}

/// The non-empty strings of the list, in order.
pub open spec fn nonempty_tokens(s: Seq<String>) -> Seq<String>
    decreases s.len(),
{
    if s.len() == 0 {
        Seq::empty()
    } else {
        (if s[0]@.len() > 0 {
            seq![s[0]]
        } else {
            Seq::<String>::empty()
        }) + nonempty_tokens(s.drop_first())
    }
}

proof fn lemma_nonempty_tokens_push(s: Seq<String>, t: String)
    ensures
        nonempty_tokens(s.push(t)) == nonempty_tokens(s) + (if t@.len() > 0 {
            seq![t]
        } else {
            Seq::<String>::empty()
        }),
    decreases s.len(),
{
    if s.len() == 0 {
        assert(s.push(t)[0] == t);
        assert(s.push(t).drop_first() =~= Seq::<String>::empty());
        assert(nonempty_tokens(Seq::<String>::empty()) == Seq::<String>::empty());
        assert(nonempty_tokens(s.push(t)) =~= nonempty_tokens(s) + (if t@.len() > 0 {
            seq![t]
        } else {
            Seq::<String>::empty()
        }));
    } else {
        assert(s.push(t)[0] == s[0]);
        assert(s.push(t).drop_first() =~= s.drop_first().push(t));
        lemma_nonempty_tokens_push(s.drop_first(), t);
        assert(nonempty_tokens(s.push(t)) =~= nonempty_tokens(s) + (if t@.len() > 0 {
            seq![t]
        } else {
            Seq::<String>::empty()
        }));
    }
}

/// A list has a non-empty string exactly when filtering keeps something.
proof fn lemma_has_nonempty(s: Seq<String>)
    ensures
        has_nonempty(s) <==> nonempty_tokens(s).len() > 0,
    decreases s.len(),
{
    if s.len() > 0 {
        lemma_has_nonempty(s.drop_first());
        assert forall|i: int| 0 <= i < s.len() && s[i]@.len() > 0 implies nonempty_tokens(
            s,
        ).len() > 0 by {
            if i > 0 {
                assert(s.drop_first()[i - 1] == s[i]);
            }
        }
        if nonempty_tokens(s).len() > 0 {
            if s[0]@.len() == 0 {
                assert(has_nonempty(s.drop_first()));
                assert forall|j: int|
                    0 <= j < s.drop_first().len() && s.drop_first()[j]@.len() > 0 implies
                    has_nonempty(s) by {
                    assert(s.drop_first()[j] == s[j + 1]);
                }
            }
        }
    }
}

/// Assembles the pipeline configuration: the non-empty tokens given by flag
/// come first, in their order, then the non-empty tokens from the token file,
/// in file order; when no non-empty token was supplied, the single prompted
/// token is used. Every token of the result is a non-empty string and the
/// list is never empty.
pub fn build_config(
    flag_tokens: Vec<String>,
    file_tokens: Vec<String>,
    prompted: Option<String>,
    proxy: Option<String>,
    verbosity: bool,
    output: Option<String>,
    num_threads: usize,
) -> (c: Config)
    requires
        has_nonempty(flag_tokens@ + file_tokens@) || (prompted matches Some(t) && t@.len() > 0),
        num_threads > 0,
    ensures
        c.proxy == proxy,
        c.verbosity == verbosity,
        c.output == output,
        c.num_threads == num_threads,
        has_nonempty(flag_tokens@ + file_tokens@) ==> c.tokens@ == nonempty_tokens(
            flag_tokens@ + file_tokens@,
        ),
        !has_nonempty(flag_tokens@ + file_tokens@) ==> c.tokens@ == seq![prompted->0],
        config_wf(c),
{
    let mut combined = flag_tokens;
    let mut file_tokens = file_tokens;
    combined.append(&mut file_tokens);
    let n = combined.len();
    let mut tokens: Vec<String> = Vec::new();
    let mut i: usize = 0;
    proof {
        assert(combined@.take(0) =~= Seq::<String>::empty());
        assert(nonempty_tokens(Seq::<String>::empty()) == Seq::<String>::empty());
    }
    while i < n
        invariant
            n == combined@.len(),
            i <= n,
            tokens@ == nonempty_tokens(combined@.take(i as int)),
            forall|j: int| 0 <= j < tokens@.len() ==> tokens@[j]@.len() > 0,
        decreases n - i,
    {
        proof {
            assert(combined@.take(i + 1) =~= combined@.take(i as int).push(combined@[i as int]));
            lemma_nonempty_tokens_push(combined@.take(i as int), combined@[i as int]);
        }
        let t = &combined[i];
        if !t.as_str().is_empty() {
            tokens.push(t.clone());
        }
        i = i + 1;
    }
    proof {
        assert(combined@.take(n as int) =~= combined@);
        lemma_has_nonempty(combined@);
    }
    if tokens.len() == 0 {
        match prompted {
            Some(t) => {
                tokens.push(t);
                proof {
                    assert(tokens@ =~= seq![prompted->0]);
                }
            },
            None => {
                proof {
                    assert(false);
                }
            },
        }
    }
    Config { tokens, proxy, verbosity, output, num_threads }
}

} // verus!
