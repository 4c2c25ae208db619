//! The log-streaming engine: the request model and its validation, the
//! remote-read path, and the three delivery modes — console, file and
//! editor — each cooperatively cancellable.

use vstd::prelude::*;

use crate::errors::LogError;
use crate::objects::{ObjKind, SelectedObject};
use crate::sink::OutputSink;
use crate::strings::{
    dec_str, find_char, first_pos, int_str, space_tokens, split_spaces, u64_to_string,
    i64_to_string,
};
use crate::template::spec_expand;

verus! {

/// Where streamed log bytes are delivered.
pub enum OutputMode {
    /// Write each line to the console sink as it arrives.
    Console,
    /// Write the bytes to a file at a templated path.
    File(String),
    /// Write the bytes to a temporary file and hand it to an editor,
    /// optionally overriding the editor command.
    Editor(Option<String>),
}

/// One log request, validated at construction.
pub struct LogRequest {
    pub target: SelectedObject,
    /// The container named explicitly, if any.
    pub container: Option<String>,
    /// How many lines from the end of the logs to fetch.
    pub tail: Option<u32>,
    /// Only records younger than this many seconds.
    pub since_seconds: Option<u64>,
    /// Only records younger than this instant (seconds since the epoch).
    pub since_time: Option<i64>,
    /// Keep streaming until cancelled.
    pub follow: bool,
    /// Fetch the previous container's records instead.
    pub previous: bool,
    pub mode: OutputMode,
}

impl LogRequest {
    /// The two age bounds are mutually exclusive, and an editor cannot
    /// follow a stream that never ends.
    pub open spec fn args_valid(
        since_seconds: Option<u64>,
        since_time: Option<i64>,
        follow: bool,
        mode: OutputMode,
    ) -> bool {
        &&& !(since_seconds is Some && since_time is Some)
        &&& !(mode is Editor && follow)
    }

    /// Build a request; refused when the age bounds conflict or an
    /// editor is combined with following.
    pub fn new(
        target: SelectedObject,
        container: Option<String>,
        tail: Option<u32>,
        since_seconds: Option<u64>,
        since_time: Option<i64>,
        follow: bool,
        previous: bool,
        mode: OutputMode,
    ) -> (r: Option<LogRequest>)
        ensures
            r is Some <==> Self::args_valid(since_seconds, since_time, follow, mode),
            r matches Some(req) ==> {
                &&& req.target == target
                &&& req.container == container
                &&& req.tail == tail
                &&& req.since_seconds == since_seconds
                &&& req.since_time == since_time
                &&& req.follow == follow
                &&& req.previous == previous
                &&& req.mode == mode
            },
    {
        if since_seconds.is_some() && since_time.is_some() {
            return None;
        }
        if matches!(mode, OutputMode::Editor(_)) && follow {
            return None;
        }
        Some(
            LogRequest {
                target,
                container,
                tail,
                since_seconds,
                since_time,
                follow,
                previous,
                mode,
            },
        )
    }
}

/// Resolve the container a log or exec request works on: the explicit
/// one when given; otherwise the only container, or the first of several
/// with a warning; with none at all, `NoContainer`.
pub fn resolve_container<W: OutputSink>(
    explicit: Option<&String>,
    obj: &SelectedObject,
    writer: &mut W,
) -> (r: Result<String, LogError>)
    ensures
        match explicit {
            Some(c) => r matches Ok(rc) && rc@ == c@ && final(writer).content() == old(
                writer,
            ).content(),
            None => match obj.kind {
                ObjKind::Pod { containers } => {
                    if containers@.len() == 0 {
                        &&& r matches Err(e) && e is NoContainer
                        &&& final(writer).content() == old(writer).content()
                    } else {
                        &&& r matches Ok(rc) && rc@ == containers@[0]@
                        &&& (containers@.len() > 1 ==> final(writer).content() == old(
                            writer,
                        ).content() + crate::objects::multi_container_warning())
                        &&& (containers@.len() <= 1 ==> final(writer).content() == old(
                            writer,
                        ).content())
                    }
                },
                _ => r matches Err(e) && e is NoContainer && final(writer).content() == old(
                    writer,
                ).content(),
            },
        },
{
    if let Some(c) = explicit {
        return Ok(c.clone());
    }
    match &obj.kind {
        ObjKind::Pod { containers } => {
            if containers.len() == 0 {
                Err(LogError::NoContainer)
            } else {
                if containers.len() > 1 {
                    writer.write_str("Pod has multiple containers, picking the first one\n");
                }
                Ok(containers[0].clone())
            }
        },
        _ => Err(LogError::NoContainer),
    }
}

/// The timeout for the remote read: none while following — the stream is
/// expected to run until cancelled — and twenty seconds for a one-shot
/// fetch, which must not hang forever.
pub fn stream_timeout_secs(follow: bool) -> (r: Option<u64>)
    ensures
        follow ==> r is None,
        !follow ==> r == Some(20u64),
{
    if follow {
        None
    } else {
        Some(20)
    }
}

/// The query arguments a request adds to the remote read.
pub open spec fn spec_url_args(
    follow: bool,
    previous: bool,
    tail: Option<u32>,
    since: Option<i64>,
) -> Seq<char> {
    (if follow {
        "&follow=true"@
    } else {
        Seq::<char>::empty()
    }) + (if previous {
        "&previous=true"@
    } else {
        Seq::<char>::empty()
    }) + (match tail {
        Option::Some(n) => "&tailLines="@ + dec_str(n as nat),
        Option::None => Seq::<char>::empty(),
    }) + (match since {
        Option::Some(s) => "&sinceSeconds="@ + int_str(s as int),
        Option::None => Seq::<char>::empty(),
    })
}

/// Build the query arguments for the remote read.
pub fn log_url_args(follow: bool, previous: bool, tail: Option<u32>, since: Option<i64>) -> (r:
    String)
    ensures
        r@ == spec_url_args(follow, previous, tail, since),
{
    let mut r = String::new();
    if follow {
        r.append("&follow=true");
    }
    if previous {
        r.append("&previous=true");
    }
    if let Some(n) = tail {
        r.append("&tailLines=");
        let ns = u64_to_string(n as u64);
        r.append(ns.as_str());
    }
    if let Some(s) = since {
        r.append("&sinceSeconds=");
        let ss = i64_to_string(s);
        r.append(ss.as_str());
    }
    r
}

/// The remote path log bytes are read from.
pub open spec fn spec_log_path(
    ns: Seq<char>,
    pod: Seq<char>,
    container: Seq<char>,
    args: Seq<char>,
) -> Seq<char> {
    "/api/v1/namespaces/"@ + ns + "/pods/"@ + pod + "/log?container="@ + container + args
}

/// Build the remote path for a log read.
pub fn log_path(ns: &str, pod: &str, container: &str, args: &str) -> (r: String)
    ensures
        r@ == spec_log_path(ns@, pod@, container@, args@),
{
    let mut r = String::from_str("/api/v1/namespaces/");
    r.append(ns);
    r.append("/pods/");
    r.append(pod);
    r.append("/log?container=");
    r.append(container);
    r.append(args);
    r
}

/// The seconds between two instants, clipped to the representable range.
pub fn seconds_between(now: i64, then: i64) -> (r: i64)
    ensures
        r == if now - then > i64::MAX {
            i64::MAX as int
        } else if now - then < i64::MIN {
            i64::MIN as int
        } else {
            now - then
        },
{
    let diff: i128 = now as i128 - then as i128;
    if diff > i64::MAX as i128 {
        i64::MAX
    } else if diff < i64::MIN as i128 {
        i64::MIN
    } else {
        diff as i64
    }
}

/// The namespace a template sees: the object's, or a fixed token when it
/// has none.
pub open spec fn ns_or_default(ns: Option<Seq<char>>) -> Seq<char> {
    match ns {
        Option::Some(n) => n,
        Option::None => "[none]"@,
    }
}

/// Expand a file-mode output template for one object: `{name}`,
/// `{namespace}` and `{time}` become the object's name, its namespace
/// (or a fixed token) and the given time; an invalid template fails with
/// `PathTemplateError` and nothing is streamed.
pub fn log_file_path(template: &str, obj: &SelectedObject, time: &str) -> (r: Result<
    String,
    LogError,
>)
    ensures
        match r {
            Ok(s) => Some(s@) == spec_expand(
                template@,
                obj@.name,
                ns_or_default(obj@.namespace),
                time@,
            ),
            Err(e) => e is PathTemplateError && spec_expand(
                template@,
                obj@.name,
                ns_or_default(obj@.namespace),
                time@,
            ) is None,
        },
{
    let ns: &str = match &obj.namespace {
        Some(n) => n.as_str(),
        None => "[none]",
    };
    match crate::template::expand_template(template, obj.name.as_str(), ns, time) {
        Some(s) => Ok(s),
        None => Err(LogError::PathTemplateError),
    }
}

/// The editor a request uses: the override when given, else the
/// session's editor, else the environment's; with none of the three,
/// `NoEditorConfigured`.
pub fn resolve_editor(
    override_cmd: Option<&String>,
    session_editor: Option<&String>,
    env_editor: Option<&String>,
) -> (r: Result<String, LogError>)
    ensures
        match override_cmd {
            Some(o) => r matches Ok(e) && e@ == o@,
            None => match session_editor {
                Some(se) => r matches Ok(e) && e@ == se@,
                None => match env_editor {
                    Some(ee) => r matches Ok(e) && e@ == ee@,
                    None => r matches Err(e) && e is NoEditorConfigured,
                },
            },
        },
{
    if let Some(o) = override_cmd {
        Ok(o.clone())
    } else if let Some(se) = session_editor {
        Ok(se.clone())
    } else if let Some(ee) = env_editor {
        Ok(ee.clone())
    } else {
        Err(LogError::NoEditorConfigured)
    }
}

/// The deterministic name of the temporary file editor mode writes:
/// pod, container and timestamp, joined by underscores.
pub fn editor_file_name(pod: &str, container: &str, time: &str) -> (r: String)
    ensures
        r@ == pod@ + "_"@ + container@ + "_"@ + time@ + ".log"@,
{
    let mut r = pod.to_owned();
    r.append("_");
    r.append(container);
    r.append("_");
    r.append(time);
    r.append(".log");
    r
}

/// How an editor command line is invoked on a file: a multi-word command
/// splits into program and arguments, and the file path comes last.
pub open spec fn spec_editor_invocation(cmd: Seq<char>, path: Seq<char>) -> Seq<Seq<char>> {
    if first_pos(cmd, ' ') < cmd.len() {
        space_tokens(cmd).push(path)
    } else {
        seq![cmd, path]
    }
}

/// Build the argument list that launches the editor on the file.
pub fn editor_invocation(cmd: &str, path: &str) -> (r: Vec<String>)
    ensures
        r.deep_view() == spec_editor_invocation(cmd@, path@),
{
    let len = cmd.unicode_len();
    if find_char(cmd, ' ') < len {
        let mut parts = split_spaces(cmd);
        parts.push(path.to_owned());
        proof {
            assert(parts.deep_view() =~= space_tokens(cmd@).push(path@));
        }
        parts
    } else {
        let mut parts: Vec<String> = Vec::new();
        parts.push(cmd.to_owned());
        parts.push(path.to_owned());
        proof {
            assert(parts.deep_view() =~= seq![cmd@, path@]);
        }
        parts
    }
}

/// A cooperative cancellation token, polled between units of work.
/// `fires_after` models the token's future answers: that many polls
/// still return false, and every poll after them returns true; `None`
/// never fires. An implementation outside verification that leaves the
/// model defaulted stands for a token that is never seen to fire.
pub trait CancelToken {
    open spec fn fires_after(&self) -> Option<u64> {
        None
    }

    fn poll_cancelled(&mut self) -> (r: bool)
        ensures
            match old(self).fires_after() {
                Option::Some(n) => if n == 0 {
                    r == true && final(self).fires_after() == Some(0u64)
                } else {
                    r == false && final(self).fires_after() == Some((n - 1) as u64)
                },
                Option::None => r == false && final(self).fires_after() == Option::<u64>::None,
            },
    ;
}

/// A token that never reports cancellation.
pub struct NeverCancelled;

impl CancelToken for NeverCancelled {
    fn poll_cancelled(&mut self) -> (r: bool) {
        false
    }
}

/// A token that reports cancellation once a fixed number of polls have
/// passed, for driving the cancellation paths deterministically.
pub struct CancelAfter {
    pub polls_left: u64,
}

impl CancelToken for CancelAfter {
    open spec fn fires_after(&self) -> Option<u64> {
        Some(self.polls_left)
    }

    fn poll_cancelled(&mut self) -> (r: bool) {
        if self.polls_left > 0 {
            self.polls_left = self.polls_left - 1;
            false
        } else {
            true
        }
    }
}

/// A source of log bytes. `remaining` is what is still to be read; a
/// read hands back a non-empty prefix of it, an empty read means the
/// stream has ended, and a stream that has ended ends cleanly — errors
/// only come while data remains. A `reliable` source never errors at
/// all; the defaulted model claims no reliability.
pub trait ByteSource {
    open spec fn remaining(&self) -> Seq<u8> {
        Seq::empty()
    }

    open spec fn reliable(&self) -> bool {
        false
    }

    fn read_chunk(&mut self, max: usize) -> (r: Result<Vec<u8>, String>)
        requires
            max > 0,
        ensures
            final(self).reliable() == old(self).reliable(),
            match r {
                Ok(chunk) => {
                    &&& chunk@.len() <= max
                    &&& chunk@.len() <= old(self).remaining().len()
                    &&& chunk@ == old(self).remaining().take(chunk@.len() as int)
                    &&& final(self).remaining() == old(self).remaining().skip(
                        chunk@.len() as int,
                    )
                    &&& (chunk@.len() == 0 <==> old(self).remaining().len() == 0)
                },
                Err(_) => {
                    &&& final(self).remaining() == old(self).remaining()
                    &&& old(self).remaining().len() > 0
                    &&& !old(self).reliable()
                },
            },
    ;
}

/// A destination for log bytes. A failed write may leave a prefix of the
/// chunk behind, but never bytes that were not written. A `reliable`
/// sink never fails; the defaulted model claims no reliability.
pub trait ByteSink {
    open spec fn contents(&self) -> Seq<u8> {
        Seq::empty()
    }

    open spec fn reliable(&self) -> bool {
        false
    }

    fn write_all(&mut self, chunk: &Vec<u8>) -> (r: Result<(), String>)
        ensures
            final(self).reliable() == old(self).reliable(),
            r is Ok ==> final(self).contents() == old(self).contents() + chunk@,
            r is Err ==> !old(self).reliable() && exists|j: int|
                0 <= j <= chunk@.len() && final(self).contents() == old(self).contents()
                    + chunk@.take(j),
    ;
}

/// An in-memory byte source over a fixed buffer.
pub struct MemByteSource {
    pub data: Vec<u8>,
    pub pos: usize,
}

impl MemByteSource {
    pub fn new(data: Vec<u8>) -> (r: MemByteSource)
        ensures
            r.remaining() == data@,
    {
        let r = MemByteSource { data, pos: 0 };
        proof {
            assert(r.remaining() =~= r.data@);
        }
        r
    }
}

impl ByteSource for MemByteSource {
    open spec fn remaining(&self) -> Seq<u8> {
        if self.pos <= self.data@.len() {
            self.data@.skip(self.pos as int)
        } else {
            Seq::empty()
        }
    }

    open spec fn reliable(&self) -> bool {
        true
    }

    fn read_chunk(&mut self, max: usize) -> (r: Result<Vec<u8>, String>) {
        let len = self.data.len();
        if self.pos >= len {
            let empty: Vec<u8> = Vec::new();
            proof {
                assert(empty@ =~= self.remaining().take(0));
            }
            return Ok(empty);
        }
        let avail = len - self.pos;
        let take_n = if max < avail {
            max
        } else {
            avail
        };
        let mut chunk: Vec<u8> = Vec::new();
        let mut i: usize = 0;
        while i < take_n
            invariant
                self.data@.len() <= usize::MAX,
                self.pos + take_n <= self.data@.len(),
                0 <= i <= take_n,
                chunk@.len() == i,
                forall|j: int| 0 <= j < i ==> chunk@[j] == self.data@[self.pos + j],
            decreases take_n - i,
        {
            chunk.push(self.data[self.pos + i]);
            i += 1;
        }
        let ghost pre = *self;
        self.pos = self.pos + take_n;
        proof {
            assert(chunk@ =~= pre.remaining().take(chunk@.len() as int));
            assert(self.remaining() =~= pre.remaining().skip(chunk@.len() as int));
        }
        Ok(chunk)
    }
}

/// An in-memory byte sink.
pub struct MemByteSink {
    pub data: Vec<u8>,
}

impl MemByteSink {
    pub fn new() -> (r: MemByteSink)
        ensures
            r.contents() == Seq::<u8>::empty(),
    {
        MemByteSink { data: Vec::new() }
    }
}

impl ByteSink for MemByteSink {
    open spec fn contents(&self) -> Seq<u8> {
        self.data@
    }

    open spec fn reliable(&self) -> bool {
        true
    }

    fn write_all(&mut self, chunk: &Vec<u8>) -> (r: Result<(), String>) {
        let mut i: usize = 0;
        while i < chunk.len()
            invariant
                0 <= i <= chunk@.len(),
                self.data@ == old(self).data@ + chunk@.take(i as int),
            decreases chunk@.len() - i,
        {
            self.data.push(chunk[i]);
            proof {
                assert(old(self).data@ + chunk@.take(i + 1) =~= (old(self).data@ + chunk@.take(
                    i as int,
                )).push(chunk@[i as int]));
            }
            i += 1;
        }
        proof {
            assert(chunk@.take(chunk@.len() as int) =~= chunk@);
        }
        Ok(())
    }
}

/// How a cancellable streaming operation ended.
pub enum StreamOutcome {
    /// The stream reached its end; reading nothing is normal completion.
    Completed,
    /// The cancellation token stopped the copy early; not an error.
    Cancelled,
}

/// Copy the source to the file in fixed-size chunks, polling the
/// cancellation token between reads and stopping early — not an error —
/// when it is set. On every exit, the file holds exactly what it held
/// before plus a prefix of the source; on a cancelled or completed exit
/// the file holds exactly the chunks read, so cancellation truncates at
/// the last fully-written chunk and never corrupts written bytes. The
/// copy stops as `Cancelled` only once a poll has fired; a never-firing
/// token with a reliable source and sink always completes.
pub fn stream_to_file<S: ByteSource, F: ByteSink, C: CancelToken>(
    src: &mut S,
    file: &mut F,
    cancel: &mut C,
) -> (r: Result<StreamOutcome, LogError>)
    ensures
        exists|k: int| {
            &&& 0 <= k <= old(src).remaining().len()
            &&& final(file).contents() == old(file).contents() + old(src).remaining().take(k)
            &&& (old(cancel).fires_after() matches Some(n) ==> k <= n * 1024)
        },
        r is Ok ==> exists|k: int| {
            &&& 0 <= k <= old(src).remaining().len()
            &&& final(file).contents() == old(file).contents() + old(src).remaining().take(k)
            &&& final(src).remaining() == old(src).remaining().skip(k)
            &&& (old(cancel).fires_after() matches Some(n) ==> k <= n * 1024)
        },
        r matches Ok(StreamOutcome::Completed) ==> {
            &&& final(file).contents() == old(file).contents() + old(src).remaining()
            &&& final(src).remaining().len() == 0
        },
        r matches Err(e) ==> (e is Transport || e is Io),
        r matches Ok(StreamOutcome::Cancelled) ==> old(cancel).fires_after() is Some
            && final(cancel).fires_after() == Some(0u64),
        old(cancel).fires_after() is None && old(src).remaining().len() == 0 ==> (r matches Ok(
            o,
        ) && o is Completed),
        old(cancel).fires_after() is None && old(src).reliable() && old(file).reliable() ==> (
        r matches Ok(o) && o is Completed),
        old(cancel).fires_after() == Some(0u64) ==> {
            &&& r matches Ok(o) && o is Cancelled
            &&& final(file).contents() == old(file).contents()
            &&& final(src).remaining() == old(src).remaining()
        },
{
    let ghost mut consumed: int = 0;
    let ghost mut polls: int = 0;
    loop
        invariant
            0 <= consumed <= old(src).remaining().len(),
            src.remaining() == old(src).remaining().skip(consumed),
            file.contents() == old(file).contents() + old(src).remaining().take(consumed),
            polls >= 0,
            polls == 0 ==> consumed == 0,
            consumed <= polls * 1024,
            src.reliable() == old(src).reliable(),
            file.reliable() == old(file).reliable(),
            match old(cancel).fires_after() {
                Option::Some(n) => polls <= n && cancel.fires_after() == Some((n - polls) as u64),
                Option::None => cancel.fires_after() is None,
            },
        decreases old(src).remaining().len() - consumed,
    {
        if cancel.poll_cancelled() {
            proof {
                assert(old(src).remaining().take(0) =~= Seq::<u8>::empty());
            }
            return Ok(StreamOutcome::Cancelled);
        }
        proof {
            polls = polls + 1;
        }
        let chunk = match src.read_chunk(1024) {
            Ok(c) => c,
            Err(msg) => {
                return Err(LogError::Transport(msg));
            },
        };
        if chunk.len() == 0 {
            proof {
                assert(old(src).remaining().take(consumed) =~= old(src).remaining());
            }
            return Ok(StreamOutcome::Completed);
        }
        let ghost all = old(src).remaining();
        proof {
            assert(all.take(consumed) + chunk@ =~= all.take(consumed + chunk@.len()));
        }
        match file.write_all(&chunk) {
            Ok(()) => (),
            Err(msg) => {
                proof {
                    let j = choose|j: int|
                        0 <= j <= chunk@.len() && file.contents() == old(file).contents()
                            + all.take(consumed) + chunk@.take(j);
                    assert(all.take(consumed) + chunk@.take(j) =~= all.take(consumed + j));
                    assert(consumed + j <= polls * 1024);
                    if old(cancel).fires_after() is Some {
                        assert(polls <= old(cancel).fires_after()->0);
                    }
                }
                return Err(LogError::Io(msg));
            },
        }
        proof {
            consumed = consumed + chunk@.len();
        }
    }
}

/// What one receive from the line channel yields.
pub enum RecvOutcome {
    /// A complete line, newline included.
    Line(String),
    /// Nothing arrived within the poll interval.
    TimedOut,
    /// The producer is gone and nothing more will arrive.
    Disconnected,
}

/// The consumer end of the line hand-off channel. `events` is what the
/// next receives will yield, in order: a line, or a timeout interval in
/// which nothing arrived. When the events run out, the channel is
/// disconnected.
pub trait LineReceiver {
    open spec fn events(&self) -> Seq<Option<Seq<char>>> {
        Seq::empty()
    }

    fn recv_line(&mut self) -> (r: RecvOutcome)
        ensures
            old(self).events().len() == 0 ==> r is Disconnected && final(self).events() == old(
                self,
            ).events(),
            old(self).events().len() > 0 ==> {
                &&& final(self).events() == old(self).events().skip(1)
                &&& (match old(self).events()[0] {
                    Option::Some(l) => r matches RecvOutcome::Line(s) && s@ == l,
                    Option::None => r is TimedOut,
                })
            },
    ;
}

/// The lines among a sequence of receive events, in order.
pub open spec fn lines_of(evs: Seq<Option<Seq<char>>>) -> Seq<Seq<char>>
    decreases evs.len(),
{
    if evs.len() == 0 {
        Seq::empty()
    } else {
        match evs[0] {
            Option::Some(l) => seq![l] + lines_of(evs.drop_first()),
            Option::None => lines_of(evs.drop_first()),
        }
    }
}

/// All the lines, joined.
pub open spec fn concat_lines(ls: Seq<Seq<char>>) -> Seq<char>
    decreases ls.len(),
{
    if ls.len() == 0 {
        Seq::empty()
    } else {
        ls[0] + concat_lines(ls.drop_first())
    }
}

pub proof fn lemma_lines_of_append(a: Seq<Option<Seq<char>>>, b: Seq<Option<Seq<char>>>)
    ensures
        lines_of(a + b) == lines_of(a) + lines_of(b),
    decreases a.len(),
{
    if a.len() == 0 {
        assert(a + b =~= b);
        assert(lines_of(a) + lines_of(b) =~= lines_of(b));
    } else {
        assert((a + b).drop_first() =~= a.drop_first() + b);
        lemma_lines_of_append(a.drop_first(), b);
        match a[0] {
            Option::Some(l) => {
                assert(seq![l] + (lines_of(a.drop_first()) + lines_of(b)) =~= (seq![l] + lines_of(
                    a.drop_first(),
                )) + lines_of(b));
            },
            Option::None => (),
        }
    }
}

pub proof fn lemma_concat_lines_append(a: Seq<Seq<char>>, b: Seq<Seq<char>>)
    ensures
        concat_lines(a + b) == concat_lines(a) + concat_lines(b),
    decreases a.len(),
{
    if a.len() == 0 {
        assert(a + b =~= b);
        assert(concat_lines(a) + concat_lines(b) =~= concat_lines(b));
    } else {
        assert((a + b).drop_first() =~= a.drop_first() + b);
        lemma_concat_lines_append(a.drop_first(), b);
        assert(a[0] + (concat_lines(a.drop_first()) + concat_lines(b)) =~= (a[0] + concat_lines(
            a.drop_first(),
        )) + concat_lines(b));
    }
}

/// How console streaming ended.
pub enum ConsoleOutcome {
    /// The channel disconnected after the last line: normal completion.
    Completed,
    /// The cancellation token stopped consumption: not an error.
    Cancelled,
}

/// Consume the line channel, writing each received line verbatim to the
/// sink, until the cancellation token is set — checked once per receive
/// interval — or the channel disconnects. The sink receives exactly the
/// lines of the consumed events, in order; a token that fires after `n`
/// polls lets at most `n` events through; a token that never fires lets
/// the channel drain to completion.
pub fn stream_console<R: LineReceiver, C: CancelToken, W: OutputSink>(
    rx: &mut R,
    cancel: &mut C,
    out: &mut W,
) -> (r: ConsoleOutcome)
    ensures
        exists|k: int| {
            &&& 0 <= k <= old(rx).events().len()
            &&& final(rx).events() == old(rx).events().skip(k)
            &&& final(out).content() == old(out).content() + concat_lines(
                lines_of(old(rx).events().take(k)),
            )
            &&& (old(cancel).fires_after() matches Some(n) ==> k <= n)
        },
        r is Completed ==> {
            &&& final(rx).events().len() == 0
            &&& final(out).content() == old(out).content() + concat_lines(
                lines_of(old(rx).events()),
            )
        },
        old(cancel).fires_after() is None ==> r is Completed,
        r is Cancelled ==> old(cancel).fires_after() is Some
            && final(cancel).fires_after() == Some(0u64),
        old(cancel).fires_after() == Some(0u64) ==> {
            &&& r is Cancelled
            &&& final(out).content() == old(out).content()
            &&& final(rx).events() == old(rx).events()
        },
{
    let ghost mut k: int = 0;
    loop
        invariant
            0 <= k <= old(rx).events().len(),
            rx.events() == old(rx).events().skip(k),
            out.content() == old(out).content() + concat_lines(
                lines_of(old(rx).events().take(k)),
            ),
            match old(cancel).fires_after() {
                Option::Some(n) => k <= n && cancel.fires_after() == Some((n - k) as u64),
                Option::None => cancel.fires_after() is None,
            },
        decreases old(rx).events().len() - k,
    {
        if cancel.poll_cancelled() {
            proof {
                assert(old(rx).events().skip(0) =~= old(rx).events());
            }
            return ConsoleOutcome::Cancelled;
        }
        let ghost evs = old(rx).events();
        let outcome = rx.recv_line();
        match outcome {
            RecvOutcome::Disconnected => {
                proof {
                    assert(evs.take(k) =~= evs);
                }
                return ConsoleOutcome::Completed;
            },
            RecvOutcome::TimedOut => {
                proof {
                    assert(evs.skip(k)[0] == evs[k]);
                    assert(evs.take(k + 1) =~= evs.take(k) + seq![evs[k]]);
                    lemma_lines_of_append(evs.take(k), seq![evs[k]]);
                    assert(seq![evs[k]].drop_first() =~= Seq::<Option<Seq<char>>>::empty());
                    assert(lines_of(seq![evs[k]].drop_first()) =~= Seq::<Seq<char>>::empty());
                    assert(evs[k] is None);
                    assert(lines_of(seq![evs[k]]) =~= Seq::<Seq<char>>::empty());
                    assert(lines_of(evs.take(k + 1)) =~= lines_of(evs.take(k)));
                    assert(evs.skip(k).skip(1) =~= evs.skip(k + 1));
                    k = k + 1;
                }
            },
            RecvOutcome::Line(l) => {
                out.write_str(l.as_str());
                proof {
                    assert(evs.skip(k)[0] == evs[k]);
                    let line = evs[k]->0;
                    assert(evs.take(k + 1) =~= evs.take(k) + seq![evs[k]]);
                    lemma_lines_of_append(evs.take(k), seq![evs[k]]);
                    assert(seq![evs[k]].drop_first() =~= Seq::<Option<Seq<char>>>::empty());
                    assert(lines_of(seq![evs[k]].drop_first()) =~= Seq::<Seq<char>>::empty());
                    assert(evs[k] is Some);
                    assert(lines_of(seq![evs[k]]) =~= seq![line]);
                    lemma_concat_lines_append(lines_of(evs.take(k)), seq![line]);
                    assert(seq![line].drop_first() =~= Seq::<Seq<char>>::empty());
                    assert(concat_lines(seq![line].drop_first()) =~= Seq::<char>::empty());
                    assert(concat_lines(seq![line]) =~= line + concat_lines(
                        seq![line].drop_first(),
                    ));
                    assert(concat_lines(seq![line]) =~= line);
                    assert(evs.skip(k).skip(1) =~= evs.skip(k + 1));
                    k = k + 1;
                }
            },
        }
    }
}

/// A scripted line receiver: hands out the given events one at a time,
/// then reports disconnection.
pub struct ScriptedReceiver {
    pub script: Vec<Option<String>>,
    pub pos: usize,
}

impl ScriptedReceiver {
    pub fn new(script: Vec<Option<String>>) -> (r: ScriptedReceiver)
        ensures
            r.events() == script.deep_view(),
    {
        let r = ScriptedReceiver { script, pos: 0 };
        proof {
            assert(r.events() =~= r.script.deep_view());
        }
        r
    }
}

impl LineReceiver for ScriptedReceiver {
    open spec fn events(&self) -> Seq<Option<Seq<char>>> {
        if self.pos <= self.script.deep_view().len() {
            self.script.deep_view().skip(self.pos as int)
        } else {
            Seq::empty()
        }
    }

    fn recv_line(&mut self) -> (r: RecvOutcome) {
        if self.pos >= self.script.len() {
            return RecvOutcome::Disconnected;
        }
        let ghost pre = *self;
        let outcome = match &self.script[self.pos] {
            Some(l) => RecvOutcome::Line(l.clone()),
            None => RecvOutcome::TimedOut,
        };
        self.pos = self.pos + 1;
        proof {
            assert(self.events() =~= pre.events().skip(1));
            assert(pre.events()[0] == pre.script.deep_view()[pre.pos as int]);
        }
        outcome
    }
}

} // verus!
