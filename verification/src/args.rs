//! The command line of the launcher, which takes the flags of a class
//! execution tool and reads them from left to right.

use crate::text::begins_with;
use crate::text::concat_text;
use crate::text::find_char;
use crate::text::position;
use crate::text::same_text;
use crate::text::slice_text;
use crate::text::split;
use crate::text::split_text;
use crate::text::starts_with;
use vstd::prelude::*;
use vstd::string::StrSliceExecFns;
use vstd::string::StringExecFns;

verus! {

/// What the invocation asks for.
#[derive(PartialEq, Debug)]
pub enum ExecutionMode {
    Class { class: String, args: Vec<String> },
    Exit { code: i32 },
    Help { code: i32 },
    JarFile { file: String, args: Vec<String> },
}

/// Where the daemon listens.
#[derive(PartialEq, Debug)]
pub enum Host {
    Tcp(String),
    Unix(String),
}

/// A command line after parsing.
#[derive(PartialEq, Debug)]
pub struct JavaArgs {
    pub cp: Vec<String>,
    pub errors: Vec<String>,
    pub mode: ExecutionMode,
    pub props: Vec<(String, String)>,
    pub host: Host,
    pub version: bool,
    pub wait: bool,
}

/// An `ExecutionMode` as characters.
pub enum ModeView {
    Class { class: Seq<char>, args: Seq<Seq<char>> },
    Exit { code: i32 },
    Help { code: i32 },
    JarFile { file: Seq<char>, args: Seq<Seq<char>> },
}

/// A `Host` as characters.
pub enum HostView {
    Tcp(Seq<char>),
    Unix(Seq<char>),
}

/// A `JavaArgs` as characters.
pub struct ArgsView {
    pub cp: Seq<Seq<char>>,
    pub errors: Seq<Seq<char>>,
    pub mode: ModeView,
    pub props: Seq<(Seq<char>, Seq<char>)>,
    pub host: HostView,
    pub version: bool,
    pub wait: bool,
}

impl View for ExecutionMode {
    type V = ModeView;

    open spec fn view(&self) -> ModeView {
        match *self {
            ExecutionMode::Class { class, args } => ModeView::Class {
                class: class@,
                args: args.deep_view(),
            },
            ExecutionMode::Exit { code } => ModeView::Exit { code },
            ExecutionMode::Help { code } => ModeView::Help { code },
            ExecutionMode::JarFile { file, args } => ModeView::JarFile {
                file: file@,
                args: args.deep_view(),
            },
        }
    }
}

impl View for Host {
    type V = HostView;

    open spec fn view(&self) -> HostView {
        match *self {
            Host::Tcp(address) => HostView::Tcp(address@),
            Host::Unix(path) => HostView::Unix(path@),
        }
    }
}

impl View for JavaArgs {
    type V = ArgsView;

    open spec fn view(&self) -> ArgsView {
        ArgsView {
            cp: self.cp.deep_view(),
            errors: self.errors.deep_view(),
            mode: self.mode@,
            props: self.props.deep_view(),
            host: self.host@,
            version: self.version,
            wait: self.wait,
        }
    }
}

/// What holds before any argument is read: the current directory as class
/// path, the usage text with exit code 1 as mode, the daemon's usual socket.
pub open spec fn default_view() -> ArgsView {
    ArgsView {
        cp: seq!["."@],
        errors: Seq::empty(),
        mode: ModeView::Help { code: 1 },
        props: Seq::empty(),
        host: HostView::Unix("/var/run/landlord/landlordd.sock"@),
        version: false,
        wait: false,
    }
}

/// The flags that are accepted and change nothing.
pub open spec fn is_noop_flag(a: Seq<char>) -> bool {
    a == "-server"@ || a == "-d64"@ || a == "-d32"@
}

/// `s` without its first `p.len()` characters.
pub open spec fn after_prefix(s: Seq<char>, p: Seq<char>) -> Seq<char> {
    s.skip(p.len() as int)
}

/// `acc` with one more error.
pub open spec fn with_error(acc: ArgsView, error: Seq<char>) -> ArgsView {
    ArgsView { errors: acc.errors.push(error), ..acc }
}

/// `acc` after a property flag whose text behind `-D` is `s`: the name and
/// the value on the two sides of the first `=`, or nothing new without one.
pub open spec fn with_property(acc: ArgsView, s: Seq<char>) -> ArgsView {
    let k = position(s, '=') as int;
    if k < s.len() {
        ArgsView { props: acc.props.push((s.take(k), s.skip(k + 1))), ..acc }
    } else {
        acc
    }
}

/// `acc` after a host flag `flag` with the value `h`.
pub open spec fn with_host(acc: ArgsView, flag: Seq<char>, h: Seq<char>) -> ArgsView {
    if begins_with(h, "tcp://"@) {
        ArgsView { host: HostView::Tcp(after_prefix(h, "tcp://"@)), ..acc }
    } else if begins_with(h, "unix://"@) {
        ArgsView { host: HostView::Unix(after_prefix(h, "unix://"@)), ..acc }
    } else {
        with_error(acc, flag + " must begin with \"tcp://\" or \"unix://\""@)
    }
}

/// The result of reading `args` from index `i` on, starting from `acc`.
///
/// The first argument that is no flag names the class, and all that follows
/// it are the class's own arguments; `-jar` does the same with a jar file.
/// A flag that takes a value takes the next argument, whatever it is, and
/// records an error where none is left.
pub open spec fn parse_from(args: Seq<Seq<char>>, i: int, acc: ArgsView) -> ArgsView
    decreases args.len() - i,
{
    if i < 0 || i >= args.len() {
        acc
    } else {
        let a = args[i];
        if !begins_with(a, "-"@) {
            ArgsView { mode: ModeView::Class { class: a, args: args.skip(i + 1) }, ..acc }
        } else if a == "-jar"@ {
            if i + 1 < args.len() {
                ArgsView {
                    mode: ModeView::JarFile { file: args[i + 1], args: args.skip(i + 2) },
                    ..acc
                }
            } else {
                with_error(acc, a + " requires jar file specification"@)
            }
        } else if a == "-?"@ || a == "-help"@ {
            parse_from(args, i + 1, ArgsView { mode: ModeView::Help { code: 0 }, ..acc })
        } else if a == "-version"@ {
            parse_from(
                args,
                i + 1,
                ArgsView { version: true, mode: ModeView::Exit { code: 0 }, ..acc },
            )
        } else if a == "-showversion"@ {
            parse_from(args, i + 1, ArgsView { version: true, ..acc })
        } else if a == "-cp"@ || a == "-classpath"@ {
            if i + 1 < args.len() {
                parse_from(args, i + 2, ArgsView { cp: split(args[i + 1], ':'), ..acc })
            } else {
                with_error(acc, a + " requires class path specification"@)
            }
        } else if a == "-H"@ || a == "-host"@ {
            if i + 1 < args.len() {
                parse_from(args, i + 2, with_host(acc, a, args[i + 1]))
            } else {
                with_error(acc, a + " requires host specification"@)
            }
        } else if begins_with(a, "-D"@) {
            parse_from(args, i + 1, with_property(acc, after_prefix(a, "-D"@)))
        } else if a == "-wait"@ {
            parse_from(args, i + 1, ArgsView { wait: true, ..acc })
        } else if is_noop_flag(a) {
            parse_from(args, i + 1, acc)
        } else {
            parse_from(args, i + 1, with_error(acc, "Unrecognized option: "@ + a))
        }
    }
}

/// The result of reading a whole command line.
pub open spec fn parse(args: Seq<Seq<char>>) -> ArgsView {
    parse_from(args, 0, default_view())
}

proof fn lemma_class_path_from(args: Seq<Seq<char>>, i: int, acc: ArgsView)
    requires
        acc.cp.len() > 0,
    ensures
        parse_from(args, i, acc).cp.len() > 0,
    decreases args.len() - i,
{
    if 0 <= i < args.len() {
        let a = args[i];
        if !begins_with(a, "-"@) {
        } else if a == "-jar"@ {
        } else if a == "-?"@ || a == "-help"@ {
            lemma_class_path_from(
                args,
                i + 1,
                ArgsView { mode: ModeView::Help { code: 0 }, ..acc },
            );
        } else if a == "-version"@ {
            lemma_class_path_from(
                args,
                i + 1,
                ArgsView { version: true, mode: ModeView::Exit { code: 0 }, ..acc },
            );
        } else if a == "-showversion"@ {
            lemma_class_path_from(args, i + 1, ArgsView { version: true, ..acc });
        } else if a == "-cp"@ || a == "-classpath"@ {
            if i + 1 < args.len() {
                lemma_class_path_from(
                    args,
                    i + 2,
                    ArgsView { cp: split(args[i + 1], ':'), ..acc },
                );
            }
        } else if a == "-H"@ || a == "-host"@ {
            if i + 1 < args.len() {
                lemma_class_path_from(args, i + 2, with_host(acc, a, args[i + 1]));
            }
        } else if begins_with(a, "-D"@) {
            lemma_class_path_from(args, i + 1, with_property(acc, after_prefix(a, "-D"@)));
        } else if a == "-wait"@ {
            lemma_class_path_from(args, i + 1, ArgsView { wait: true, ..acc });
        } else if is_noop_flag(a) {
            lemma_class_path_from(args, i + 1, acc);
        } else {
            lemma_class_path_from(args, i + 1, with_error(acc, "Unrecognized option: "@ + a));
        }
    }
}

/// The class path of a command line is never empty: it is the current
/// directory until a flag sets it, and a flag sets it to at least one
/// entry.
pub proof fn lemma_class_path_never_empty(args: Seq<Seq<char>>)
    ensures
        parse(args).cp.len() > 0,
{
    lemma_class_path_from(args, 0, default_view());
}

/// What holds before any argument is read.
pub fn default() -> (jargs: JavaArgs)
    ensures
        jargs@ == default_view(),
{
    let mut cp: Vec<String> = Vec::new();
    cp.push(String::from_str("."));
    let jargs = JavaArgs {
        cp,
        errors: Vec::new(),
        mode: ExecutionMode::Help { code: 1 },
        props: Vec::new(),
        host: Host::Unix(String::from_str("/var/run/landlord/landlordd.sock")),
        version: false,
        wait: false,
    };
    assert(jargs.cp.deep_view() =~= seq!["."@]);
    assert(jargs.errors.deep_view() =~= Seq::empty());
    assert(jargs.props.deep_view() =~= Seq::empty());
    jargs
}

/// The arguments from index `from` on.
fn tail(args: &[String], from: usize) -> (rest: Vec<String>)
    requires
        from <= args@.len(),
    ensures
        rest.deep_view() == args.deep_view().skip(from as int),
{
    let mut rest: Vec<String> = Vec::new();
    let mut i: usize = from;
    let n: usize = args.len();
    while i < n
        invariant
            from <= i <= n,
            n == args@.len(),
            rest.deep_view() == args.deep_view().subrange(from as int, i as int),
        decreases n - i,
    {
        let ghost before = rest.deep_view();
        rest.push(args[i].clone());
        assert(rest.deep_view() =~= before.push(args[i as int]@));
        i += 1;
    }
    rest
}

/// `s` without the prefix `p`, where `s` begins with it.
fn strip_prefix(s: &str, p: &str) -> (r: Option<String>)
    ensures
        r is Some == begins_with(s@, p@),
        r matches Some(rest) ==> rest@ == after_prefix(s@, p@),
{
    if starts_with(s, p) {
        let n: usize = s.unicode_len();
        let m: usize = p.unicode_len();
        let rest: String = slice_text(s, m, n);
        Some(rest)
    } else {
        None
    }
}

/// Adds `error` to `errors`.
fn record(errors: &mut Vec<String>, error: String)
    ensures
        final(errors).deep_view() == old(errors).deep_view().push(error@),
{
    errors.push(error);
    assert(errors.deep_view() =~= old(errors).deep_view().push(error@));
}

/// Whether `a` is one of the flags that are accepted and change nothing.
fn noop_flag(a: &str) -> (r: bool)
    ensures
        r == is_noop_flag(a@),
{
    same_text(a, "-server") || same_text(a, "-d64") || same_text(a, "-d32")
}

/// Reads a command line, the program's own name left out.
///
/// Nothing is rejected: what cannot be read is recorded in `errors`, and
/// reading goes on.
pub fn parse_java_args(args: &[String]) -> (jargs: JavaArgs)
    ensures
        jargs@ == parse(args.deep_view()),
        jargs.cp@.len() > 0,
{
    proof {
        lemma_class_path_never_empty(args.deep_view());
    }
    let start: JavaArgs = default();
    let mut cp: Vec<String> = start.cp;
    let mut errors: Vec<String> = start.errors;
    let mut mode: ExecutionMode = start.mode;
    let mut props: Vec<(String, String)> = start.props;
    let mut host: Host = start.host;
    let mut version: bool = start.version;
    let mut wait: bool = start.wait;
    let n: usize = args.len();
    let mut i: usize = 0;
    let ghost all = args.deep_view();
    while i < n
        invariant
            i <= n,
            n == args@.len(),
            all == args.deep_view(),
            parse_from(
                all,
                i as int,
                (ArgsView {
                    cp: cp.deep_view(),
                    errors: errors.deep_view(),
                    mode: mode@,
                    props: props.deep_view(),
                    host: host@,
                    version,
                    wait,
                }),
            ) == parse(all),
        decreases n - i,
    {
        let a: &str = args[i].as_str();
        if !starts_with(a, "-") {
            mode = ExecutionMode::Class { class: args[i].clone(), args: tail(args, i + 1) };
            i = n;
        } else if same_text(a, "-jar") {
            if i + 1 < n {
                mode = ExecutionMode::JarFile { file: args[i + 1].clone(), args: tail(args, i + 2) };
            } else {
                record(&mut errors, concat_text(a, " requires jar file specification"));
            }
            i = n;
        } else if same_text(a, "-?") || same_text(a, "-help") {
            mode = ExecutionMode::Help { code: 0 };
            i += 1;
        } else if same_text(a, "-version") {
            version = true;
            mode = ExecutionMode::Exit { code: 0 };
            i += 1;
        } else if same_text(a, "-showversion") {
            version = true;
            i += 1;
        } else if same_text(a, "-cp") || same_text(a, "-classpath") {
            if i + 1 < n {
                cp = split_text(args[i + 1].as_str(), ':');
                i += 2;
            } else {
                record(&mut errors, concat_text(a, " requires class path specification"));
                i = n;
            }
        } else if same_text(a, "-H") || same_text(a, "-host") {
            if i + 1 < n {
                let h: &str = args[i + 1].as_str();
                match strip_prefix(h, "tcp://") {
                    Some(address) => {
                        host = Host::Tcp(address);
                    },
                    None => {
                        match strip_prefix(h, "unix://") {
                            Some(path) => {
                                host = Host::Unix(path);
                            },
                            None => {
                                record(&mut errors, concat_text(
                                    a,
                                    " must begin with \"tcp://\" or \"unix://\"",
                                ));
                            },
                        }
                    },
                }
                i += 2;
            } else {
                record(&mut errors, concat_text(a, " requires host specification"));
                i = n;
            }
        } else if starts_with(a, "-D") {
            let m: usize = "-D".unicode_len();
            let len: usize = a.unicode_len();
            let s: String = slice_text(a, m, len);
            let k: usize = find_char(s.as_str(), '=');
            let slen: usize = s.as_str().unicode_len();
            if k < slen {
                let name: String = slice_text(s.as_str(), 0, k);
                let value: String = slice_text(s.as_str(), k + 1, slen);
                let ghost before = props.deep_view();
                props.push((name, value));
                assert(props.deep_view() =~= before.push((name@, value@)));
            }
            i += 1;
        } else if same_text(a, "-wait") {
            wait = true;
            i += 1;
        } else if noop_flag(a) {
            i += 1;
        } else {
            record(&mut errors, concat_text("Unrecognized option: ", a));
            i += 1;
        }
    }
    JavaArgs { cp, errors, mode, props, host, version, wait }
}

/// What the launcher does with a command line that it has read.
#[derive(PartialEq, Debug)]
pub enum Launch<'a> {
    /// Report each error on a line of its own and exit with code 1: no
    /// session starts.
    Reject { errors: &'a Vec<String> },
    /// Connect to the daemon and run the class there.
    Run { class: &'a String, args: &'a Vec<String> },
    /// Exit with this code.
    Exit { code: i32 },
    /// Print the usage text and exit with this code.
    Usage { code: i32 },
    /// Say that jar files cannot be run and exit with code 1.
    JarUnsupported,
}

/// A `Launch` as characters.
pub enum LaunchView {
    Reject { errors: Seq<Seq<char>> },
    Run { class: Seq<char>, args: Seq<Seq<char>> },
    Exit { code: i32 },
    Usage { code: i32 },
    JarUnsupported,
}

impl<'a> View for Launch<'a> {
    type V = LaunchView;

    open spec fn view(&self) -> LaunchView {
        match *self {
            Launch::Reject { errors } => LaunchView::Reject { errors: errors.deep_view() },
            Launch::Run { class, args } => LaunchView::Run {
                class: class@,
                args: args.deep_view(),
            },
            Launch::Exit { code } => LaunchView::Exit { code },
            Launch::Usage { code } => LaunchView::Usage { code },
            Launch::JarUnsupported => LaunchView::JarUnsupported,
        }
    }
}

/// What the launcher does with the command line `parsed`: any error keeps
/// the session from starting; without one the mode decides.
pub open spec fn launch_of(parsed: ArgsView) -> LaunchView {
    if parsed.errors.len() > 0 {
        LaunchView::Reject { errors: parsed.errors }
    } else {
        match parsed.mode {
            ModeView::Class { class, args } => LaunchView::Run { class, args },
            ModeView::Exit { code } => LaunchView::Exit { code },
            ModeView::Help { code } => LaunchView::Usage { code },
            ModeView::JarFile { file, args } => LaunchView::JarUnsupported,
        }
    }
}

/// The exit code with which the launcher ends before any session, or none
/// where a session is to run.
pub open spec fn early_exit_code(launch: LaunchView) -> Option<i32> {
    match launch {
        LaunchView::Reject { errors } => Some(1i32),
        LaunchView::Run { class, args } => None,
        LaunchView::Exit { code } => Some(code),
        LaunchView::Usage { code } => Some(code),
        LaunchView::JarUnsupported => Some(1i32),
    }
}

/// What the launcher does with the command line `parsed`. Whether it first
/// prints its version is `parsed.version`, whatever the result here.
pub fn plan_launch<'a>(parsed: &'a JavaArgs) -> (launch: Launch<'a>)
    ensures
        launch@ == launch_of(parsed@),
{
    if parsed.errors.len() > 0 {
        Launch::Reject { errors: &parsed.errors }
    } else {
        match &parsed.mode {
            ExecutionMode::Class { class, args } => Launch::Run { class, args },
            ExecutionMode::Exit { code } => Launch::Exit { code: *code },
            ExecutionMode::Help { code } => Launch::Usage { code: *code },
            ExecutionMode::JarFile { file: _, args: _ } => Launch::JarUnsupported,
        }
    }
}

impl<'a> Launch<'a> {
    /// The exit code with which the launcher ends before any session, or
    /// none where a session is to run.
    pub fn exit_code(&self) -> (code: Option<i32>)
        ensures
            code == early_exit_code(self@),
    {
        match self {
            Launch::Reject { errors: _ } => Some(1),
            Launch::Run { class: _, args: _ } => None,
            Launch::Exit { code } => Some(*code),
            Launch::Usage { code } => Some(*code),
            Launch::JarUnsupported => Some(1),
        }
    }
}

} // verus!
