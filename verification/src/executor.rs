//! Running the coding agent's command line tool: its settings, the bounded
//! buffer that collects its output, the error patterns that stop it early, and
//! the result of a run.
//!
//! Spawning the process, feeding it and reading its pipes, waiting on it and on
//! interrupts are done by the program around the library; every decision it
//! takes on what it read is made here, by [`ExecutionMonitor`].

use vstd::prelude::*;
use crate::error::{AutomationError, Result};
use crate::time::Duration;

verus! {

/// Settings of the command to run.
#[derive(Debug)]
pub struct ExecutorConfig {
    /// The command.
    pub command: String,
    /// Its arguments.
    pub args: Vec<String>,
    /// Text written to its standard input, if any.
    pub input: Option<String>,
    /// Working directory.
    pub workspace: String,
    /// How long the command may run.
    pub timeout: Duration,
    /// Most bytes kept of each output stream.
    pub output_buffer_limit: usize,
    /// Grace period before a forced stop.
    pub graceful_timeout: Duration,
    /// Time allowed to a forced stop.
    pub force_timeout: Duration,
}

impl Default for ExecutorConfig {
    fn default() -> (c: Self)
        ensures
            c.command@ == "kilocode"@,
            c.args@.map_values(|a: String| a@) == seq![
                "--mode"@, "orchestrator"@, "--auto"@, "--timeout"@, "1800"@, "--workspace"@, "/workspace"@,
            ],
            c.input is None,
            c.workspace@ == "/workspace"@,
            c.timeout.ms() == 1_800_000,
            c.output_buffer_limit == 10 * 1024 * 1024,
            c.graceful_timeout.ms() == 5_000,
            c.force_timeout.ms() == 2_000,
    {
        let mut args: Vec<String> = Vec::new();
        args.push("--mode".to_string());
        args.push("orchestrator".to_string());
        args.push("--auto".to_string());
        args.push("--timeout".to_string());
        args.push("1800".to_string());
        args.push("--workspace".to_string());
        args.push("/workspace".to_string());
        let c = ExecutorConfig {
            command: "kilocode".to_string(),
            args,
            input: None,
            workspace: "/workspace".to_string(),
            timeout: Duration::from_secs(1800),
            output_buffer_limit: 10 * 1024 * 1024,
            graceful_timeout: Duration::from_secs(5),
            force_timeout: Duration::from_secs(2),
        };
        assert(c.args@.map_values(|a: String| a@) =~= seq![
            "--mode"@, "orchestrator"@, "--auto"@, "--timeout"@, "1800"@, "--workspace"@, "/workspace"@,
        ]);
        c
    }
}

/// What a stream keeps when `chunk` arrives on `kept` under the limit `max`:
/// everything while it fits, else what fills it up to the limit.
pub open spec fn stream_after(kept: Seq<u8>, chunk: Seq<u8>, max: nat) -> Seq<u8> {
    if kept.len() + chunk.len() > max {
        kept + chunk.take(max - kept.len())
    } else {
        kept + chunk
    }
}

/// Output of a run kept in memory, each stream bounded by the same limit.
#[derive(Debug)]
pub struct OutputBuffer {
    stdout: Vec<u8>,
    stderr: Vec<u8>,
    max_size: usize,
    is_full: bool,
}

/// Abstract value of an [`OutputBuffer`].
pub struct OutputBufferView {
    pub stdout: Seq<u8>,
    pub stderr: Seq<u8>,
    pub max_size: nat,
    pub is_full: bool,
}

impl View for OutputBuffer {
    type V = OutputBufferView;

    closed spec fn view(&self) -> OutputBufferView {
        OutputBufferView {
            stdout: self.stdout@,
            stderr: self.stderr@,
            max_size: self.max_size as nat,
            is_full: self.is_full,
        }
    }
}

/// The text that `String::from_utf8_lossy` makes of bytes.
pub uninterp spec fn utf8_lossy(bytes: Seq<u8>) -> Seq<char>;

/// Decodes bytes as UTF-8, replacing invalid sequences.
///
/// Calls `String::from_utf8_lossy`; the text is left to the name
/// [`utf8_lossy`], except that valid UTF-8 decodes to the characters it encodes,
/// as std documents. What an invalid sequence becomes is not stated.
#[verifier::external_body]
fn from_utf8_lossy(bytes: &[u8]) -> (s: String)
    ensures
        s@ == utf8_lossy(bytes@),
        vstd::utf8::valid_utf8(bytes@) ==> s@ == vstd::utf8::decode_utf8(bytes@),
{
    String::from_utf8_lossy(bytes).to_string()
}

impl OutputBuffer {
    #[verifier::type_invariant]
    spec fn within_limit(self) -> bool {
        self.stdout@.len() <= self.max_size && self.stderr@.len() <= self.max_size
    }

    /// An empty buffer keeping at most `max_size` bytes of each stream.
    pub fn new(max_size: usize) -> (b: Self)
        ensures
            b@ == (OutputBufferView { stdout: Seq::empty(), stderr: Seq::empty(), max_size: max_size as nat, is_full: false }),
    {
        let b = OutputBuffer { stdout: Vec::new(), stderr: Vec::new(), max_size, is_full: false };
        assert(b@.stdout =~= Seq::<u8>::empty());
        b
    }

    fn append_bounded(v: &mut Vec<u8>, chunk: &[u8], max: usize) -> (over: bool)
        requires
            old(v)@.len() <= max,
        ensures
            final(v)@ == stream_after(old(v)@, chunk@, max as nat),
            over == (old(v)@.len() + chunk@.len() > max),
            final(v)@.len() <= max,
    {
        let over = chunk.len() > max - v.len();
        let take = if over { max - v.len() } else { chunk.len() };
        let ghost start = v@;
        let mut i: usize = 0;
        while i < take
            invariant
                take <= chunk@.len(),
                start.len() + take <= max,
                0 <= i <= take,
                v@ == start + chunk@.take(i as int),
            decreases take - i,
        {
            v.push(chunk[i]);
            assert(chunk@.take(i + 1) =~= chunk@.take(i as int).push(chunk@[i as int]));
            i += 1;
        }
        assert(chunk@.take(chunk@.len() as int) =~= chunk@);
        over
    }

    /// Adds a chunk of standard output; past the limit only what fits is kept,
    /// the buffer is marked full, and `true` is returned.
    pub fn add_stdout(&mut self, chunk: &[u8]) -> (full: bool)
        ensures
            final(self)@.stdout == stream_after(old(self)@.stdout, chunk@, old(self)@.max_size),
            final(self)@.stderr == old(self)@.stderr,
            final(self)@.max_size == old(self)@.max_size,
            full == (old(self)@.stdout.len() + chunk@.len() > old(self)@.max_size),
            final(self)@.is_full == (old(self)@.is_full || full),
    {
        proof { use_type_invariant(&*self); }
        let max = self.max_size;
        let mut out = Vec::new();
        std::mem::swap(&mut out, &mut self.stdout);
        let over = Self::append_bounded(&mut out, chunk, max);
        self.stdout = out;
        if over {
            self.is_full = true;
        }
        over
    }

    /// Adds a chunk of standard error, as [`OutputBuffer::add_stdout`] does.
    pub fn add_stderr(&mut self, chunk: &[u8]) -> (full: bool)
        ensures
            final(self)@.stderr == stream_after(old(self)@.stderr, chunk@, old(self)@.max_size),
            final(self)@.stdout == old(self)@.stdout,
            final(self)@.max_size == old(self)@.max_size,
            full == (old(self)@.stderr.len() + chunk@.len() > old(self)@.max_size),
            final(self)@.is_full == (old(self)@.is_full || full),
    {
        proof { use_type_invariant(&*self); }
        let max = self.max_size;
        let mut err = Vec::new();
        std::mem::swap(&mut err, &mut self.stderr);
        let over = Self::append_bounded(&mut err, chunk, max);
        self.stderr = err;
        if over {
            self.is_full = true;
        }
        over
    }

    /// The standard output kept, decoded as UTF-8 (invalid bytes replaced).
    pub fn get_stdout(&self) -> (s: String)
        ensures
            s@ == utf8_lossy(self@.stdout),
            vstd::utf8::valid_utf8(self@.stdout) ==> s@ == vstd::utf8::decode_utf8(self@.stdout),
    {
        from_utf8_lossy(self.stdout.as_slice())
    }

    /// The standard error kept, decoded as UTF-8 (invalid bytes replaced).
    pub fn get_stderr(&self) -> (s: String)
        ensures
            s@ == utf8_lossy(self@.stderr),
            vstd::utf8::valid_utf8(self@.stderr) ==> s@ == vstd::utf8::decode_utf8(self@.stderr),
    {
        from_utf8_lossy(self.stderr.as_slice())
    }

    /// The bytes kept of both streams.
    pub fn len(&self) -> (n: usize)
        requires
            self@.stdout.len() + self@.stderr.len() <= usize::MAX,
        ensures
            n == self@.stdout.len() + self@.stderr.len(),
    {
        self.stdout.len() + self.stderr.len()
    }

    /// Whether some output was cut at the limit.
    pub fn is_full(&self) -> (b: bool)
        ensures
            b == self@.is_full,
    {
        self.is_full
    }

    /// Drops all output kept.
    pub fn clear(&mut self)
        ensures
            final(self)@ == (OutputBufferView { stdout: Seq::empty(), stderr: Seq::empty(), max_size: old(self)@.max_size, is_full: false }),
    {
        proof { use_type_invariant(&*self); }
        self.stdout = Vec::new();
        self.stderr = Vec::new();
        self.is_full = false;
        assert(self@.stdout =~= Seq::<u8>::empty());
        assert(self@.stderr =~= Seq::<u8>::empty());
    }
}


/// Whether `pattern` is a regular expression that the `regex` crate compiles.
pub uninterp spec fn regex_valid(pattern: Seq<char>) -> bool;

/// Whether the compiled `pattern` matches somewhere in `text` (bytes), as
/// `regex::bytes::Regex::is_match` decides.
pub uninterp spec fn regex_matches(pattern: Seq<char>, text: Seq<u8>) -> bool;

/// Whether `pattern` compiles.
///
/// Calls `regex::bytes::Regex::new`; whether it succeeds is left to the name
/// [`regex_valid`].
#[verifier::external_body]
fn regex_compiles(pattern: &str) -> (b: bool)
    ensures
        b == regex_valid(pattern@),
{
    regex::bytes::Regex::new(pattern).is_ok()
}

/// Whether `pattern` matches somewhere in `text`.
///
/// Compiles `pattern` with `regex::bytes::Regex::new` and calls `is_match`; the
/// answer is left to the name [`regex_matches`].
#[verifier::external_body]
fn regex_is_match(pattern: &str, text: &[u8]) -> (b: bool)
    requires
        regex_valid(pattern@),
    ensures
        b == regex_matches(pattern@, text@),
{
    regex::bytes::Regex::new(pattern).unwrap().is_match(text)
}

/// The patterns that signal that the agent gave up: the "Mistake Limit Reached"
/// banner, alone or after a cross, an `X` or a `*`, or followed within 500
/// characters by the model failure notice.
pub open spec fn mistake_limit_sources() -> Seq<Seq<char>> {
    seq![
        "Mistake Limit Reached"@,
        "[\\s\\|]*\\xE2\\x9C\\x97\\s*Mistake Limit Reached"@,
        "[\\s\\|]*X\\s*Mistake Limit Reached"@,
        "[\\s\\|]*\\*\\s*Mistake Limit Reached"@,
        "Mistake Limit Reached[\\s\\S]{0,500}This may indicate a failure in the model"@,
    ]
}

/// The first of `patterns` that matches `text`, if any.
pub open spec fn first_match(patterns: Seq<Seq<char>>, text: Seq<u8>) -> Option<Seq<char>>
    decreases patterns.len(),
{
    if patterns.len() == 0 {
        None
    } else if regex_matches(patterns[0], text) {
        Some(patterns[0])
    } else {
        first_match(patterns.drop_first(), text)
    }
}

/// Error patterns searched for in the output of a run.
#[derive(Debug)]
pub struct ErrorPatterns {
    mistake_limit: Vec<String>,
}

impl View for ErrorPatterns {
    type V = Seq<Seq<char>>;

    closed spec fn view(&self) -> Seq<Seq<char>> {
        self.mistake_limit@.map_values(|p: String| p@)
    }
}

impl Clone for ErrorPatterns {
    fn clone(&self) -> (r: Self)
        ensures
            r@ == self@,
    {
        let mut v: Vec<String> = Vec::new();
        proof { use_type_invariant(self); }
        let mut i: usize = 0;
        while i < self.mistake_limit.len()
            invariant
                0 <= i <= self.mistake_limit@.len(),
                v@.map_values(|p: String| p@) == self.mistake_limit@.take(i as int).map_values(|p: String| p@),
                v@.len() == i,
                forall|j: int| 0 <= j < self.mistake_limit@.len() ==> regex_valid(#[trigger] self.mistake_limit@[j]@),
                forall|j: int| 0 <= j < v@.len() ==> regex_valid(#[trigger] v@[j]@),
            decreases self.mistake_limit@.len() - i,
        {
            let ghost before = v@.map_values(|p: String| p@);
            let c = self.mistake_limit[i].clone();
            assert(c@ == self.mistake_limit@[i as int]@);
            v.push(c);
            assert(self.mistake_limit@.take(i + 1) =~= self.mistake_limit@.take(i as int).push(self.mistake_limit@[i as int]));
            assert(v@.map_values(|p: String| p@) =~= before.push(c@));
            assert(v@.map_values(|p: String| p@) =~= self.mistake_limit@.take(i + 1).map_values(|p: String| p@));
            i += 1;
        }
        assert(self.mistake_limit@.take(self.mistake_limit@.len() as int) =~= self.mistake_limit@);
        ErrorPatterns { mistake_limit: v }
    }
}

impl ErrorPatterns {
    #[verifier::type_invariant]
    spec fn all_valid(self) -> bool {
        forall|i: int| 0 <= i < self.mistake_limit@.len() ==> regex_valid(#[trigger] self.mistake_limit@[i]@)
    }

    /// The mistake-limit patterns that compile, in their order.
    pub fn default() -> (p: Self)
        ensures
            p@ == mistake_limit_sources().filter(|s: Seq<char>| regex_valid(s)),
    {
        let mut candidates: Vec<&str> = Vec::new();
        candidates.push("Mistake Limit Reached");
        candidates.push("[\\s\\|]*\\xE2\\x9C\\x97\\s*Mistake Limit Reached");
        candidates.push("[\\s\\|]*X\\s*Mistake Limit Reached");
        candidates.push("[\\s\\|]*\\*\\s*Mistake Limit Reached");
        candidates.push("Mistake Limit Reached[\\s\\S]{0,500}This may indicate a failure in the model");
        let ghost src = mistake_limit_sources();
        let ghost pred = |s: Seq<char>| regex_valid(s);
        assert(candidates@.map_values(|c: &str| c@) =~= src);
        let mut kept: Vec<String> = Vec::new();
        let mut i: usize = 0;
        while i < candidates.len()
            invariant
                0 <= i <= candidates@.len(),
                candidates@.map_values(|c: &str| c@) == src,
                pred == (|s: Seq<char>| regex_valid(s)),
                kept@.map_values(|p: String| p@) == src.take(i as int).filter(pred),
                forall|j: int| 0 <= j < kept@.len() ==> regex_valid(#[trigger] kept@[j]@),
            decreases candidates@.len() - i,
        {
            let c = candidates[i];
            assert(src[i as int] == c@);
            proof {
                assert(src.take(i + 1) =~= src.take(i as int).push(src[i as int]));
                src.take(i as int).lemma_filter_push(src[i as int], pred);
            }
            if regex_compiles(c) {
                let ghost before = kept@.map_values(|p: String| p@);
                kept.push(c.to_string());
                assert(kept@.map_values(|p: String| p@) =~= before.push(c@));
            }
            i += 1;
        }
        assert(src.take(5) =~= src);
        ErrorPatterns { mistake_limit: kept }
    }

    /// The first pattern that matches `output`, if any.
    pub fn find_match(&self, output: &[u8]) -> (r: Option<String>)
        ensures
            match first_match(self@, output@) {
                Some(p) => r matches Some(s) && s@ == p,
                None => r is None,
            },
    {
        proof { use_type_invariant(self); }
        let ghost all = self@;
        assert(all.skip(0) =~= all);
        let mut i: usize = 0;
        while i < self.mistake_limit.len()
            invariant
                0 <= i <= self.mistake_limit@.len(),
                all == self@,
                all == self.mistake_limit@.map_values(|p: String| p@),
                forall|j: int| 0 <= j < self.mistake_limit@.len() ==> regex_valid(#[trigger] self.mistake_limit@[j]@),
                first_match(all, output@) == first_match(all.skip(i as int), output@),
            decreases self.mistake_limit@.len() - i,
        {
            let p = &self.mistake_limit[i];
            assert(all.skip(i as int)[0] == p@);
            if regex_is_match(p.as_str(), output) {
                return Some(p.clone());
            }
            assert(all.skip(i as int).drop_first() =~= all.skip(i + 1));
            i += 1;
        }
        assert(all.skip(i as int).len() == 0);
        None
    }

    /// Whether some pattern matches `output`.
    pub fn matches(&self, output: &[u8]) -> (b: bool)
        ensures
            b == (first_match(self@, output@) is Some),
    {
        self.find_match(output).is_some()
    }
}

/// The result of a run.
#[derive(Debug)]
pub struct ProcessResult {
    /// Exit code, when known.
    pub exit_code: Option<i32>,
    pub stdout: String,
    pub stderr: String,
    /// Whether the run was stopped before the command finished.
    pub terminated_early: bool,
    /// Why it was stopped.
    pub termination_reason: Option<String>,
    pub execution_time_ms: u64,
    /// Error text, if any.
    pub error: Option<String>,
}

impl Default for ProcessResult {
    fn default() -> (r: Self)
        ensures
            r.exit_code is None,
            r.stdout@ == Seq::<char>::empty(),
            r.stderr@ == Seq::<char>::empty(),
            !r.terminated_early,
            r.termination_reason is None,
            r.execution_time_ms == 0,
            r.error is None,
    {
        ProcessResult {
            exit_code: None,
            stdout: String::new(),
            stderr: String::new(),
            terminated_early: false,
            termination_reason: None,
            execution_time_ms: 0,
            error: None,
        }
    }
}

impl ProcessResult {
    /// The result of a run stopped by its timeout: no exit code, no output kept,
    /// stopped early for `Timeout`, having taken the whole timeout.
    pub fn timed_out(timeout: Duration) -> (r: Self)
        ensures
            r.exit_code is None,
            r.stdout@ == Seq::<char>::empty(),
            r.stderr@ == Seq::<char>::empty(),
            r.terminated_early,
            r.termination_reason matches Some(t) && t@ == "Timeout"@,
            r.execution_time_ms == timeout.ms(),
            r.error is None,
    {
        ProcessResult {
            exit_code: None,
            stdout: String::new(),
            stderr: String::new(),
            terminated_early: true,
            termination_reason: Some("Timeout".to_string()),
            execution_time_ms: timeout.millis,
            error: None,
        }
    }
}

/// Refuses to start a run while another runs.
pub fn check_not_running(running: bool) -> (r: Result<()>)
    ensures
        running <==> r is Err,
        r matches Err(e) ==> e matches AutomationError::ScheduleConfigInvalid { reason }
            && reason@ == "Executor is already running"@,
{
    if running {
        Err(AutomationError::ScheduleConfigInvalid { reason: "Executor is already running".to_string() })
    } else {
        Ok(())
    }
}

/// What a run has seen so far: its output, and whether and why it is to stop.
#[derive(Debug)]
pub struct ExecutionMonitor {
    buffer: OutputBuffer,
    patterns: ErrorPatterns,
    terminated_early: bool,
    termination_reason: Option<String>,
}

/// Abstract value of an [`ExecutionMonitor`].
pub struct MonitorView {
    pub buffer: OutputBufferView,
    pub patterns: Seq<Seq<char>>,
    pub terminated_early: bool,
    pub termination_reason: Option<Seq<char>>,
}

impl View for ExecutionMonitor {
    type V = MonitorView;

    closed spec fn view(&self) -> MonitorView {
        MonitorView {
            buffer: self.buffer@,
            patterns: self.patterns@,
            terminated_early: self.terminated_early,
            termination_reason: match self.termination_reason {
                Some(s) => Some(s@),
                None => None,
            },
        }
    }
}

impl ExecutionMonitor {
    /// A run that has seen nothing, keeping `limit` bytes of each stream and
    /// watching its standard error for `patterns`.
    pub fn new(limit: usize, patterns: ErrorPatterns) -> (m: Self)
        ensures
            m@.buffer == (OutputBufferView { stdout: Seq::empty(), stderr: Seq::empty(), max_size: limit as nat, is_full: false }),
            m@.patterns == patterns@,
            !m@.terminated_early,
            m@.termination_reason is None,
    {
        ExecutionMonitor { buffer: OutputBuffer::new(limit), patterns, terminated_early: false, termination_reason: None }
    }

    /// Takes a chunk of standard output; `true` when some of it was cut.
    pub fn on_stdout(&mut self, chunk: &[u8]) -> (cut: bool)
        ensures
            final(self)@.buffer.stdout == stream_after(old(self)@.buffer.stdout, chunk@, old(self)@.buffer.max_size),
            final(self)@.buffer.stderr == old(self)@.buffer.stderr,
            final(self)@.buffer.max_size == old(self)@.buffer.max_size,
            final(self)@.buffer.is_full == (old(self)@.buffer.is_full || cut),
            cut == (old(self)@.buffer.stdout.len() + chunk@.len() > old(self)@.buffer.max_size),
            final(self)@.patterns == old(self)@.patterns,
            final(self)@.terminated_early == old(self)@.terminated_early,
            final(self)@.termination_reason == old(self)@.termination_reason,
    {
        self.buffer.add_stdout(chunk)
    }

    /// Takes a chunk of standard error; `true` when some of it was cut. When a
    /// pattern then matches the standard error kept (decoded and encoded again
    /// as UTF-8), the run is to stop early, for the first such pattern.
    pub fn on_stderr(&mut self, chunk: &[u8]) -> (cut: bool)
        ensures
            final(self)@.buffer.stderr == stream_after(old(self)@.buffer.stderr, chunk@, old(self)@.buffer.max_size),
            final(self)@.buffer.stdout == old(self)@.buffer.stdout,
            final(self)@.buffer.max_size == old(self)@.buffer.max_size,
            final(self)@.buffer.is_full == (old(self)@.buffer.is_full || cut),
            cut == (old(self)@.buffer.stderr.len() + chunk@.len() > old(self)@.buffer.max_size),
            final(self)@.patterns == old(self)@.patterns,
            match first_match(old(self)@.patterns, vstd::utf8::encode_utf8(utf8_lossy(final(self)@.buffer.stderr))) {
                Some(p) => final(self)@.terminated_early
                    && final(self)@.termination_reason == Some("Error pattern matched: "@ + p),
                None => final(self)@.terminated_early == old(self)@.terminated_early
                    && final(self)@.termination_reason == old(self)@.termination_reason,
            },
    {
        let cut = self.buffer.add_stderr(chunk);
        let data = self.buffer.get_stderr();
        match self.patterns.find_match(data.as_str().as_bytes()) {
            Some(p) => {
                self.terminated_early = true;
                let mut reason = "Error pattern matched: ".to_string();
                reason.append(p.as_str());
                self.termination_reason = Some(reason);
            },
            None => {},
        }
        cut
    }

    /// Records that the run is stopped by a shutdown request.
    pub fn on_shutdown(&mut self)
        ensures
            final(self)@.terminated_early,
            final(self)@.termination_reason == Some("Shutdown signal"@),
            final(self)@.buffer == old(self)@.buffer,
            final(self)@.patterns == old(self)@.patterns,
    {
        self.terminated_early = true;
        self.termination_reason = Some("Shutdown signal".to_string());
    }

    /// Records that the run is stopped by Ctrl+C.
    pub fn on_ctrl_c(&mut self)
        ensures
            final(self)@.terminated_early,
            final(self)@.termination_reason == Some("Ctrl+C"@),
            final(self)@.buffer == old(self)@.buffer,
            final(self)@.patterns == old(self)@.patterns,
    {
        self.terminated_early = true;
        self.termination_reason = Some("Ctrl+C".to_string());
    }

    /// Whether the run is to stop early.
    pub fn terminated_early(&self) -> (b: bool)
        ensures
            b == self@.terminated_early,
    {
        self.terminated_early
    }

    /// The result of the run once the command has ended after `elapsed_ms`: exit
    /// code 0, the output kept, and whether and why it was stopped.
    pub fn finish(self, elapsed_ms: u64) -> (r: ProcessResult)
        ensures
            r.exit_code == Some(0i32),
            r.stdout@ == utf8_lossy(self@.buffer.stdout),
            r.stderr@ == utf8_lossy(self@.buffer.stderr),
            r.terminated_early == self@.terminated_early,
            match r.termination_reason {
                Some(t) => self@.termination_reason == Some(t@),
                None => self@.termination_reason is None,
            },
            r.execution_time_ms == elapsed_ms,
            r.error is None,
    {
        ProcessResult {
            exit_code: Some(0),
            stdout: self.buffer.get_stdout(),
            stderr: self.buffer.get_stderr(),
            terminated_early: self.terminated_early,
            termination_reason: self.termination_reason,
            execution_time_ms: elapsed_ms,
            error: None,
        }
    }
}


/// A stream never holds more than its limit, keeps everything while it fits,
/// and otherwise keeps exactly the first `max` bytes of everything it was given.
pub proof fn law_stream_is_bounded_prefix(kept: Seq<u8>, chunk: Seq<u8>, max: nat)
    requires
        kept.len() <= max,
    ensures
        stream_after(kept, chunk, max).len() <= max,
        kept.len() + chunk.len() <= max ==> stream_after(kept, chunk, max) == kept + chunk,
        kept.len() + chunk.len() > max ==> stream_after(kept, chunk, max) == (kept + chunk).take(max as int),
{
    if kept.len() + chunk.len() > max {
        assert(stream_after(kept, chunk, max) =~= (kept + chunk).take(max as int));
    }
}

} // verus!
