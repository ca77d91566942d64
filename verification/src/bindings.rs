//! What binds a session together: the block-padded stream and the
//! descriptor of the upload, and what the forwarders of standard input and
//! of signals decide.

use crate::proto::Input;
use crate::proto::InputView;
use crate::text::decimal;
use crate::text::join;
use crate::text::join_text;
use crate::text::numeral;
use crate::text::numerals;
use vstd::prelude::*;
use vstd::slice::slice_to_vec;
use vstd::string::StringExecFns;

verus! {

/// The block size of the upload: the archive is padded to a multiple of it.
pub const BLOCK_SIZE: usize = 10240;

/// How many bytes the forwarder of standard input asks for in one read.
pub const STDIN_CHUNK: usize = 1024;

/// How many zero bytes end a stream of `written` bytes in blocks of
/// `block_size`: as many as lead to the next multiple of the block size,
/// a whole block where the stream already ends on one.
pub open spec fn padding(written: nat, block_size: nat) -> nat {
    (block_size - written % block_size) as nat
}

/// Whether `m` is a whole number of blocks of `block_size` bytes.
pub open spec fn is_multiple(m: nat, block_size: nat) -> bool {
    m % block_size == 0
}

/// `n` zero bytes.
pub open spec fn zeros(n: nat) -> Seq<u8> {
    Seq::new(n, |i: int| 0u8)
}

/// With its padding a stream ends on the first multiple of the block size
/// behind its last byte: the total is a multiple, it is greater than what
/// was written, and no multiple lies between the two. Where the stream ends
/// on a multiple, a whole block is added; elsewhere the total is also the
/// least multiple that is not less than what was written.
pub proof fn lemma_padded_total(written: nat, block_size: nat)
    requires
        block_size > 0,
    ensures
        is_multiple(written + padding(written, block_size), block_size),
        written + padding(written, block_size) > written,
        1 <= padding(written, block_size) <= block_size,
        forall|m: nat|
            #[trigger] is_multiple(m, block_size) && m > written ==> m >= written + padding(
                written,
                block_size,
            ),
        is_multiple(written, block_size) ==> padding(written, block_size) == block_size,
        !is_multiple(written, block_size) ==> forall|m: nat|
            #[trigger] is_multiple(m, block_size) && m >= written ==> m >= written + padding(
                written,
                block_size,
            ),
{
    let b = block_size as int;
    let w = written as int;
    let q = w / b;
    let total = w + padding(written, block_size);
    vstd::arithmetic::div_mod::lemma_fundamental_div_mod(w, b);
    vstd::arithmetic::div_mod::lemma_mod_bound(w, b);
    assert(total == b * (q + 1)) by (nonlinear_arith)
        requires
            w == b * q + w % b,
            total == w + (b - w % b),
    ;
    vstd::arithmetic::div_mod::lemma_fundamental_div_mod_converse(total, b, q + 1, 0);
    assert forall|m: nat| #[trigger] is_multiple(m, block_size) && m > written implies m
        >= total by {
        let mi = m as int;
        vstd::arithmetic::div_mod::lemma_fundamental_div_mod(mi, b);
        let k = mi / b;
        if k <= q {
            assert(b * k <= b * q) by (nonlinear_arith)
                requires
                    k <= q,
                    b > 0,
            ;
        } else {
            assert(b * k >= b * (q + 1)) by (nonlinear_arith)
                requires
                    k >= q + 1,
                    b > 0,
            ;
        }
    }
}

/// A write came after `finish`.
#[derive(Clone, Copy, PartialEq, Eq, Debug, Structural)]
pub struct StreamClosed;

/// A sink that counts what is written to it and, when finished, ends on a
/// multiple of its block size.
pub struct BlockSizeWriter {
    stream: Option<Vec<u8>>,
    written: usize,
    block_size: usize,
}

impl BlockSizeWriter {
    /// The block size is not zero, and the sink holds at least what was
    /// written through this writer. It holds of every writer that `new`
    /// made, whatever was done with it.
    pub closed spec fn wf(&self) -> bool {
        &&& self.block_size > 0
        &&& self.stream matches Some(s) ==> self.written <= s@.len()
    }

    /// The bytes of the sink, while it has not been handed back.
    pub closed spec fn sink(&self) -> Option<Seq<u8>> {
        match self.stream {
            Some(s) => Some(s@),
            None => None,
        }
    }

    /// How many bytes were written through this writer.
    pub closed spec fn written(&self) -> nat {
        self.written as nat
    }

    /// The block size that the writer was made with.
    pub closed spec fn block_size(&self) -> nat {
        self.block_size as nat
    }

    /// A writer over the sink `obj`, which keeps what it holds. Nothing
    /// counts as written yet.
    pub fn new(obj: Vec<u8>, block_size: usize) -> (writer: BlockSizeWriter)
        requires
            block_size > 0,
        ensures
            writer.wf(),
            writer.sink() == Some(obj@),
            writer.written() == 0,
            writer.block_size() == block_size,
    {
        BlockSizeWriter { stream: Some(obj), written: 0, block_size }
    }

    /// Hands `buf` on to the sink unchanged and counts its bytes. After
    /// `finish` it fails and changes nothing.
    pub fn write(&mut self, buf: &[u8]) -> (r: Result<usize, StreamClosed>)
        requires
            old(self).wf(),
        ensures
            final(self).wf(),
            final(self).block_size() == old(self).block_size(),
            final(self).written() == old(self).written() + (if old(self).sink() is Some {
                buf@.len()
            } else {
                0
            }),
            old(self).sink() is None ==> r is Err && final(self).sink() is None,
            old(self).sink() matches Some(s) ==> final(self).sink() == Some(s + buf@) && (r matches Ok(
                n,
            ) && n == buf@.len()),
    {
        match self.stream.take() {
            None => Err(StreamClosed),
            Some(mut s) => {
                let mut more: Vec<u8> = slice_to_vec(buf);
                let n: usize = more.len();
                s.append(&mut more);
                assert(s@.len() <= usize::MAX) by {
                    assert(s.len() == s@.len());
                }
                self.stream = Some(s);
                self.written = self.written + n;
                Ok(n)
            },
        }
    }

    /// Whether the sink still takes bytes: nothing is held back, so there
    /// is nothing else to do.
    pub fn flush(&mut self) -> (r: Result<(), StreamClosed>)
        requires
            old(self).wf(),
        ensures
            final(self).wf(),
            final(self).sink() == old(self).sink(),
            final(self).written() == old(self).written(),
            final(self).block_size() == old(self).block_size(),
            r is Ok == old(self).sink() is Some,
    {
        if self.stream.is_some() {
            Ok(())
        } else {
            Err(StreamClosed)
        }
    }

    /// Ends the stream: writes the padding and hands the sink back. A
    /// second call finds no sink and gives `None`.
    pub fn finish(&mut self) -> (stream: Option<Vec<u8>>)
        requires
            old(self).wf(),
        ensures
            final(self).wf(),
            final(self).sink() is None,
            final(self).written() == old(self).written(),
            final(self).block_size() == old(self).block_size(),
            old(self).sink() is None ==> stream is None,
            old(self).sink() matches Some(s) ==> (stream matches Some(v) && v@ == s + zeros(
                padding(old(self).written(), old(self).block_size()),
            )),
            is_multiple(
                old(self).written() + padding(old(self).written(), old(self).block_size()),
                old(self).block_size(),
            ),
            1 <= padding(old(self).written(), old(self).block_size()) <= old(self).block_size(),
    {
        proof {
            lemma_padded_total(self.written as nat, self.block_size as nat);
        }
        match self.stream.take() {
            None => None,
            Some(mut s) => {
                let bytes_left: usize = self.block_size - (self.written % self.block_size);
                let ghost before = s@;
                let mut i: usize = 0;
                while i < bytes_left
                    invariant
                        i <= bytes_left,
                        s@ == before + zeros(i as nat),
                    decreases bytes_left - i,
                {
                    s.push(0u8);
                    i += 1;
                }
                Some(s)
            },
        }
    }
}

/// The line that opens an upload: the tag `l-cp`, the names of the entries
/// of the class path, which are their indices, with colons between them,
/// then the class and, where there are any, its arguments; a NUL between
/// each two parts and a newline at the end.
pub open spec fn descriptor_text(entries: nat, class: Seq<char>, args: Seq<Seq<char>>) -> Seq<
    char,
> {
    "l-cp"@ + seq!['\0'] + join(numerals(entries), seq![':']) + seq!['\0'] + class + (if args.len()
        == 0 {
        Seq::<char>::empty()
    } else {
        seq!['\0'] + join(args, seq!['\0'])
    }) + seq!['\n']
}

/// The line that opens the upload of `class_path` to run `class` with
/// `args`.
pub fn descriptor(class_path: &Vec<String>, class: &String, args: &Vec<String>) -> (line: String)
    ensures
        line@ == descriptor_text(class_path@.len(), class@, args.deep_view()),
{
    proof {
        reveal_strlit("\0");
        reveal_strlit(":");
        reveal_strlit("\n");
    }
    let n: usize = class_path.len();
    let mut names: Vec<String> = Vec::new();
    let mut i: usize = 0;
    while i < n
        invariant
            i <= n,
            names.deep_view() == numerals(i as nat),
        decreases n - i,
    {
        let ghost before = names.deep_view();
        let name: String = decimal(i);
        names.push(name);
        assert(names.deep_view() =~= before.push(numeral(i as nat)));
        i += 1;
    }
    assert(":"@ =~= seq![':']);
    assert("\0"@ =~= seq!['\0']);
    assert("\n"@ =~= seq!['\n']);
    let mut line: String = String::from_str("l-cp");
    line.append("\0");
    line.append(join_text(&names, ":").as_str());
    line.append("\0");
    line.append(class.as_str());
    if args.len() > 0 {
        line.append("\0");
        line.append(join_text(args, "\0").as_str());
    }
    line.append("\n");
    line
}

/// What a path of the class path turned out to be.
#[derive(Clone, Copy, PartialEq, Eq, Debug, Structural)]
pub enum PathKind {
    File,
    Directory,
    /// Neither of the two.
    Other,
}

/// What the upload does with one entry of the class path.
#[derive(PartialEq, Eq, Debug)]
pub enum EntryPlan {
    /// Append the file under this name.
    AppendFile(String),
    /// Append the directory and all below it under this name.
    AppendDir(String),
    /// Leave the entry out.
    Skip,
}

/// An `EntryPlan` as characters.
pub enum EntryPlanView {
    AppendFile(Seq<char>),
    AppendDir(Seq<char>),
    Skip,
}

impl View for EntryPlan {
    type V = EntryPlanView;

    open spec fn view(&self) -> EntryPlanView {
        match *self {
            EntryPlan::AppendFile(name) => EntryPlanView::AppendFile(name@),
            EntryPlan::AppendDir(name) => EntryPlanView::AppendDir(name@),
            EntryPlan::Skip => EntryPlanView::Skip,
        }
    }
}

/// What the upload does with the entry at `index` of the class path, whose
/// path is of kind `kind`: an entry goes into the archive under its index,
/// never under its path.
pub open spec fn entry_plan(index: nat, kind: PathKind) -> EntryPlanView {
    match kind {
        PathKind::File => EntryPlanView::AppendFile(numeral(index)),
        PathKind::Directory => EntryPlanView::AppendDir(numeral(index)),
        PathKind::Other => EntryPlanView::Skip,
    }
}

/// What the upload does with the entry at `index` of the class path.
pub fn plan_entry(index: usize, kind: PathKind) -> (plan: EntryPlan)
    ensures
        plan@ == entry_plan(index as nat, kind),
{
    match kind {
        PathKind::File => EntryPlan::AppendFile(decimal(index)),
        PathKind::Directory => EntryPlan::AppendDir(decimal(index)),
        PathKind::Other => EntryPlan::Skip,
    }
}

/// How a read of standard input ended.
#[derive(PartialEq, Eq, Debug)]
pub enum StdinRead {
    /// With these bytes; with none at the end of the input.
    Bytes(Vec<u8>),
    /// Interrupted before any byte came.
    Interrupted,
    /// With any other error.
    Failed,
}

/// What the forwarder of standard input does after a read.
#[derive(PartialEq, Eq, Debug)]
pub enum StdinStep {
    /// Push the event, then read again; stop where the push fails.
    Forward(Input),
    /// Read again.
    Retry,
    /// Stop: the input has ended. Nothing tells the daemon.
    Finish,
    /// Report the error and stop.
    Crash,
}

/// A `StdinStep` with its bytes as a sequence.
pub enum StdinStepView {
    Forward(InputView),
    Retry,
    Finish,
    Crash,
}

impl View for StdinStep {
    type V = StdinStepView;

    open spec fn view(&self) -> StdinStepView {
        match *self {
            StdinStep::Forward(event) => StdinStepView::Forward(event@),
            StdinStep::Retry => StdinStepView::Retry,
            StdinStep::Finish => StdinStepView::Finish,
            StdinStep::Crash => StdinStepView::Crash,
        }
    }
}

/// What the forwarder of standard input does after the read `read`.
pub fn stdin_step(read: StdinRead) -> (step: StdinStep)
    ensures
        step@ == match read {
            StdinRead::Bytes(bytes) => if bytes@.len() == 0 {
                StdinStepView::Finish
            } else {
                StdinStepView::Forward(InputView::StdIn(bytes@))
            },
            StdinRead::Interrupted => StdinStepView::Retry,
            StdinRead::Failed => StdinStepView::Crash,
        },
{
    match read {
        StdinRead::Bytes(bytes) => {
            if bytes.len() == 0 {
                StdinStep::Finish
            } else {
                StdinStep::Forward(Input::StdIn(bytes))
            }
        },
        StdinRead::Interrupted => StdinStep::Retry,
        StdinRead::Failed => StdinStep::Crash,
    }
}

/// A signal that the launcher can be sent.
#[derive(Clone, Copy, PartialEq, Eq, Debug, Structural)]
pub enum Signal {
    Abrt,
    Alrm,
    Bus,
    Chld,
    Cont,
    Fpe,
    Hup,
    Ill,
    Int,
    Io,
    Kill,
    Pipe,
    Prof,
    Quit,
    Segv,
    Stop,
    Sys,
    Term,
    Trap,
    Tstp,
    Ttin,
    Ttou,
    Urg,
    Usr1,
    Usr2,
    Vtalrm,
    Winch,
    Xcpu,
    Xfsz,
    /// Any signal that has no name here.
    Unknown,
}

/// The signals that the launcher subscribes to, in the order in which it
/// names them.
pub open spec fn subscription() -> Seq<Signal> {
    seq![
        Signal::Abrt,
        Signal::Alrm,
        Signal::Bus,
        Signal::Chld,
        Signal::Cont,
        Signal::Fpe,
        Signal::Hup,
        Signal::Ill,
        Signal::Int,
        Signal::Io,
        Signal::Kill,
        Signal::Pipe,
        Signal::Prof,
        Signal::Quit,
        Signal::Segv,
        Signal::Stop,
        Signal::Sys,
        Signal::Term,
        Signal::Trap,
        Signal::Tstp,
        Signal::Ttin,
        Signal::Ttou,
        Signal::Urg,
        Signal::Usr1,
        Signal::Usr2,
        Signal::Vtalrm,
        Signal::Winch,
        Signal::Xcpu,
        Signal::Xfsz,
    ]
}

/// The place of a signal in `subscription()`; the length of it for a signal
/// without a name.
pub open spec fn place(signal: Signal) -> int {
    match signal {
        Signal::Abrt => 0,
        Signal::Alrm => 1,
        Signal::Bus => 2,
        Signal::Chld => 3,
        Signal::Cont => 4,
        Signal::Fpe => 5,
        Signal::Hup => 6,
        Signal::Ill => 7,
        Signal::Int => 8,
        Signal::Io => 9,
        Signal::Kill => 10,
        Signal::Pipe => 11,
        Signal::Prof => 12,
        Signal::Quit => 13,
        Signal::Segv => 14,
        Signal::Stop => 15,
        Signal::Sys => 16,
        Signal::Term => 17,
        Signal::Trap => 18,
        Signal::Tstp => 19,
        Signal::Ttin => 20,
        Signal::Ttou => 21,
        Signal::Urg => 22,
        Signal::Usr1 => 23,
        Signal::Usr2 => 24,
        Signal::Vtalrm => 25,
        Signal::Winch => 26,
        Signal::Xcpu => 27,
        Signal::Xfsz => 28,
        Signal::Unknown => 29,
    }
}

/// The number under which `signal` goes to the daemon, where `table` holds
/// the platform's numbers of the signals of `subscription()`, in that
/// order: the platform's number, and 1 for a signal without a name.
pub open spec fn number_by(table: Seq<i32>, signal: Signal) -> i32 {
    if signal is Unknown {
        1
    } else {
        table[place(signal)]
    }
}

/// Every signal with a name stands in `subscription()`, once, at its place.
pub proof fn lemma_subscription(signal: Signal)
    ensures
        subscription().len() == 29,
        !(signal is Unknown) ==> 0 <= place(signal) < 29 && subscription()[place(signal)]
            == signal,
        forall|i: int| 0 <= i < 29 ==> place(#[trigger] subscription()[i]) == i,
{
}

/// The number of `signal` where every platform gives it the same one; none
/// for a signal whose number differs from one platform to the next.
pub open spec fn common_number(signal: Signal) -> Option<i32> {
    match signal {
        Signal::Hup => Some(1i32),
        Signal::Int => Some(2i32),
        Signal::Quit => Some(3i32),
        Signal::Ill => Some(4i32),
        Signal::Fpe => Some(8i32),
        Signal::Kill => Some(9i32),
        Signal::Segv => Some(11i32),
        Signal::Alrm => Some(14i32),
        Signal::Term => Some(15i32),
        _ => None,
    }
}

/// What holds of a platform's numbers of the signals of `subscription()`,
/// whatever the platform: there is one for each signal, and the signals
/// with a common number have it.
pub open spec fn is_platform_table(table: Seq<i32>) -> bool {
    &&& table.len() == 29
    &&& table[place(Signal::Hup)] == 1
    &&& table[place(Signal::Int)] == 2
    &&& table[place(Signal::Quit)] == 3
    &&& table[place(Signal::Ill)] == 4
    &&& table[place(Signal::Fpe)] == 8
    &&& table[place(Signal::Kill)] == 9
    &&& table[place(Signal::Segv)] == 11
    &&& table[place(Signal::Alrm)] == 14
    &&& table[place(Signal::Term)] == 15
}

/// `libc`'s constants `SIGABRT` to `SIGXFSZ`: the numbers that the platform
/// gives to the signals of `subscription()`, in that order. Most differ
/// from one platform to the next, and of those nothing is stated. `SIGHUP`,
/// `SIGINT`, `SIGQUIT`, `SIGILL`, `SIGFPE`, `SIGKILL`, `SIGSEGV`, `SIGALRM`
/// and `SIGTERM` are 1, 2, 3, 4, 8, 9, 11, 14 and 15 wherever `libc`
/// defines them, which is what `is_platform_table` claims.
#[verifier::external_body]
fn platform_numbers() -> (table: Vec<i32>)
    ensures
        is_platform_table(table@),
{
    vec![
        libc::SIGABRT, libc::SIGALRM, libc::SIGBUS, libc::SIGCHLD, libc::SIGCONT,
        libc::SIGFPE, libc::SIGHUP, libc::SIGILL, libc::SIGINT, libc::SIGIO,
        libc::SIGKILL, libc::SIGPIPE, libc::SIGPROF, libc::SIGQUIT, libc::SIGSEGV,
        libc::SIGSTOP, libc::SIGSYS, libc::SIGTERM, libc::SIGTRAP, libc::SIGTSTP,
        libc::SIGTTIN, libc::SIGTTOU, libc::SIGURG, libc::SIGUSR1, libc::SIGUSR2,
        libc::SIGVTALRM, libc::SIGWINCH, libc::SIGXCPU, libc::SIGXFSZ,
    ]
}

/// The signals that the launcher subscribes to.
pub fn all_signals() -> (all: Vec<Signal>)
    ensures
        all@ == subscription(),
{
    let mut all: Vec<Signal> = Vec::new();
    all.push(Signal::Abrt);
    all.push(Signal::Alrm);
    all.push(Signal::Bus);
    all.push(Signal::Chld);
    all.push(Signal::Cont);
    all.push(Signal::Fpe);
    all.push(Signal::Hup);
    all.push(Signal::Ill);
    all.push(Signal::Int);
    all.push(Signal::Io);
    all.push(Signal::Kill);
    all.push(Signal::Pipe);
    all.push(Signal::Prof);
    all.push(Signal::Quit);
    all.push(Signal::Segv);
    all.push(Signal::Stop);
    all.push(Signal::Sys);
    all.push(Signal::Term);
    all.push(Signal::Trap);
    all.push(Signal::Tstp);
    all.push(Signal::Ttin);
    all.push(Signal::Ttou);
    all.push(Signal::Urg);
    all.push(Signal::Usr1);
    all.push(Signal::Usr2);
    all.push(Signal::Vtalrm);
    all.push(Signal::Winch);
    all.push(Signal::Xcpu);
    all.push(Signal::Xfsz);
    all
}

/// The place of a signal in `subscription()`.
fn place_of(signal: Signal) -> (at: usize)
    ensures
        at == place(signal),
{
    match signal {
        Signal::Abrt => 0,
        Signal::Alrm => 1,
        Signal::Bus => 2,
        Signal::Chld => 3,
        Signal::Cont => 4,
        Signal::Fpe => 5,
        Signal::Hup => 6,
        Signal::Ill => 7,
        Signal::Int => 8,
        Signal::Io => 9,
        Signal::Kill => 10,
        Signal::Pipe => 11,
        Signal::Prof => 12,
        Signal::Quit => 13,
        Signal::Segv => 14,
        Signal::Stop => 15,
        Signal::Sys => 16,
        Signal::Term => 17,
        Signal::Trap => 18,
        Signal::Tstp => 19,
        Signal::Ttin => 20,
        Signal::Ttou => 21,
        Signal::Urg => 22,
        Signal::Usr1 => 23,
        Signal::Usr2 => 24,
        Signal::Vtalrm => 25,
        Signal::Winch => 26,
        Signal::Xcpu => 27,
        Signal::Xfsz => 28,
        Signal::Unknown => 29,
    }
}

/// The number under which `signal` goes to the daemon, where `table` holds
/// the platform's numbers of the signals of `subscription()`, in that
/// order.
pub fn number_in(table: &Vec<i32>, signal: Signal) -> (number: i32)
    requires
        table@.len() == 29,
    ensures
        number == number_by(table@, signal),
{
    let at: usize = place_of(signal);
    if at < table.len() {
        table[at]
    } else {
        1
    }
}

/// The number under which `signal` goes to the daemon: the platform's
/// number of it, and 1 for a signal without a name. The platform's number
/// is the common one where the signal has one; of the others only this is
/// known, that they stand in the platform's table at the signal's place.
pub fn signal_number(signal: Signal) -> (number: i32)
    ensures
        signal is Unknown ==> number == 1,
        common_number(signal) matches Some(n) ==> number == n,
        exists|table: Seq<i32>| #[trigger]
            is_platform_table(table) && number == number_by(table, signal),
{
    let table: Vec<i32> = platform_numbers();
    number_in(&table, signal)
}

} // verus!
